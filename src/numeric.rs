use vstd::prelude::*;

verus! {

/// Whether `c` is an ASCII decimal digit.
pub open spec fn is_digit(c: char) -> bool {
    '0' <= c && c <= '9'
}

/// The value of a string of decimal digits, most significant first.
pub open spec fn digits_value(d: Seq<char>) -> int
    decreases d.len(),
{
    if d.len() == 0 {
        0
    } else {
        digits_value(d.drop_last()) * 10 + (d.last() as int - '0' as int)
    }
}

/// The value of a non-negative decimal literal: an optional `+` followed by
/// one or more ASCII digits. `None` for any other text.
pub open spec fn literal_value(t: Seq<char>) -> Option<int> {
    let d = unsigned_part(t);
    if d.len() > 0 && all_digits(d) {
        Some(digits_value(d))
    } else {
        None
    }
}

/// The text after an optional leading `+`.
pub open spec fn unsigned_part(t: Seq<char>) -> Seq<char> {
    if t.len() > 0 && t[0] == '+' {
        t.drop_first()
    } else {
        t
    }
}

/// Whether every character of `d` is an ASCII digit.
pub open spec fn all_digits(d: Seq<char>) -> bool {
    forall|i: int| 0 <= i < d.len() ==> is_digit(#[trigger] d[i])
}

/// The value of a signed decimal literal: an optional `+` or `-` followed by
/// one or more ASCII digits. `None` for any other text.
pub open spec fn signed_literal_value(t: Seq<char>) -> Option<int> {
    if t.len() > 0 && t[0] == '-' {
        match literal_value(t.drop_first()) {
            Some(v) => if t.len() > 1 && t[1] != '+' {
                Some(-v)
            } else {
                None
            },
            None => None,
        }
    } else {
        literal_value(t)
    }
}

/// Whether text without a minus sign reads as a number from `0` to `max`.
pub open spec fn fits_literal(t: Seq<char>, max: int) -> bool {
    literal_value(t) is Some && literal_value(t)->0 <= max
}

/// The integer types that the calculator sums over: a zero, a parser for
/// decimal text, a comparison with the threshold, and checked addition.
pub trait NumericSummable: Sized {
    /// The mathematical value of a number of this type.
    spec fn spec_value(&self) -> int;

    /// The largest value of this type.
    spec fn spec_max() -> int;

    /// The value that decimal text reads as in this type, if it reads as one.
    spec fn spec_parse(s: Seq<char>) -> Option<int>;

    /// Every value lies at or below the maximum.
    proof fn lemma_value_at_most_max(&self)
        ensures
            self.spec_value() <= Self::spec_max(),
    ;

    /// Text without a minus sign reads as a number exactly when it is a
    /// non-negative literal that fits this type.
    proof fn lemma_parse_unsigned_text(s: Seq<char>)
        ensures
            !s.contains('-') ==> Self::spec_parse(s) == if fits_literal(s, Self::spec_max()) {
                Some(literal_value(s)->0)
            } else {
                None::<int>
            },
    ;

    fn zero() -> (r: Self)
        ensures
            r.spec_value() == 0,
    ;

    /// Reads decimal text as a number of this type.
    fn parse_text(s: &str) -> (r: Option<Self>)
        ensures
            match r {
                Some(v) => Self::spec_parse(s@) == Some(v.spec_value()),
                None => Self::spec_parse(s@) is None,
            },
    ;

    fn exceeds_thousand(&self) -> (r: bool)
        ensures
            r == (self.spec_value() > 1000),
    ;

    /// Adds two non-negative values, or gives `None` when the sum does not fit.
    fn checked_sum(&self, other: &Self) -> (r: Option<Self>)
        requires
            self.spec_value() >= 0,
            other.spec_value() >= 0,
        ensures
            r is None <==> self.spec_value() + other.spec_value() > Self::spec_max(),
            r is Some ==> r->0.spec_value() == self.spec_value() + other.spec_value(),
    ;
}
/// Text without a minus sign reads the same as a signed literal and as a
/// non-negative one.
pub proof fn lemma_unsigned_text(t: Seq<char>)
    ensures
        !t.contains('-') ==> signed_literal_value(t) == literal_value(t),
        literal_value(t) is Some ==> literal_value(t)->0 >= 0,
{
    if t.len() > 0 && t[0] == '-' {
        assert(t.contains('-'));
    }
    if literal_value(t) is Some {
        lemma_digits_value_nonnegative(unsigned_part(t));
    }
}

/// A string of digits has a non-negative value.
pub proof fn lemma_digits_value_nonnegative(d: Seq<char>)
    requires
        all_digits(d),
    ensures
        digits_value(d) >= 0,
    decreases d.len(),
{
    if d.len() > 0 {
        assert(is_digit(d[d.len() - 1]));
        lemma_digits_value_nonnegative(d.drop_last());
    }
}


/// Relies on `<u8 as FromStr>::from_str`: an optional `+` and one or more
/// ASCII digits whose value fits in `u8` read as that value; any other
/// text is an error.
#[verifier::external_body]
fn parse_u8(s: &str) -> (r: Option<u8>)
    ensures
        r is Some <==> (literal_value(s@) is Some && literal_value(s@)->0 <= u8::MAX),
        r is Some ==> r->0 == literal_value(s@)->0,
{
    s.parse::<u8>().ok()
}

impl NumericSummable for u8 {
    open spec fn spec_value(&self) -> int {
        *self as int
    }

    open spec fn spec_max() -> int {
        u8::MAX as int
    }

    open spec fn spec_parse(s: Seq<char>) -> Option<int> {
        if fits_literal(s, u8::MAX as int) {
            Some(literal_value(s)->0)
        } else {
            None
        }
    }

    proof fn lemma_value_at_most_max(&self) {
    }

    proof fn lemma_parse_unsigned_text(s: Seq<char>) {
    }

    fn zero() -> (r: Self) {
        0
    }

    fn parse_text(s: &str) -> (r: Option<Self>) {
        parse_u8(s)
    }

    fn exceeds_thousand(&self) -> (r: bool) {
        (*self as u16) > 1000
    }

    fn checked_sum(&self, other: &Self) -> (r: Option<Self>) {
        self.checked_add(*other)
    }
}

/// Relies on `<u16 as FromStr>::from_str`: an optional `+` and one or more
/// ASCII digits whose value fits in `u16` read as that value; any other
/// text is an error.
#[verifier::external_body]
fn parse_u16(s: &str) -> (r: Option<u16>)
    ensures
        r is Some <==> (literal_value(s@) is Some && literal_value(s@)->0 <= u16::MAX),
        r is Some ==> r->0 == literal_value(s@)->0,
{
    s.parse::<u16>().ok()
}

impl NumericSummable for u16 {
    open spec fn spec_value(&self) -> int {
        *self as int
    }

    open spec fn spec_max() -> int {
        u16::MAX as int
    }

    open spec fn spec_parse(s: Seq<char>) -> Option<int> {
        if fits_literal(s, u16::MAX as int) {
            Some(literal_value(s)->0)
        } else {
            None
        }
    }

    proof fn lemma_value_at_most_max(&self) {
    }

    proof fn lemma_parse_unsigned_text(s: Seq<char>) {
    }

    fn zero() -> (r: Self) {
        0
    }

    fn parse_text(s: &str) -> (r: Option<Self>) {
        parse_u16(s)
    }

    fn exceeds_thousand(&self) -> (r: bool) {
        *self > 1000
    }

    fn checked_sum(&self, other: &Self) -> (r: Option<Self>) {
        self.checked_add(*other)
    }
}

/// Relies on `<u32 as FromStr>::from_str`: an optional `+` and one or more
/// ASCII digits whose value fits in `u32` read as that value; any other
/// text is an error.
#[verifier::external_body]
fn parse_u32(s: &str) -> (r: Option<u32>)
    ensures
        r is Some <==> (literal_value(s@) is Some && literal_value(s@)->0 <= u32::MAX),
        r is Some ==> r->0 == literal_value(s@)->0,
{
    s.parse::<u32>().ok()
}

impl NumericSummable for u32 {
    open spec fn spec_value(&self) -> int {
        *self as int
    }

    open spec fn spec_max() -> int {
        u32::MAX as int
    }

    open spec fn spec_parse(s: Seq<char>) -> Option<int> {
        if fits_literal(s, u32::MAX as int) {
            Some(literal_value(s)->0)
        } else {
            None
        }
    }

    proof fn lemma_value_at_most_max(&self) {
    }

    proof fn lemma_parse_unsigned_text(s: Seq<char>) {
    }

    fn zero() -> (r: Self) {
        0
    }

    fn parse_text(s: &str) -> (r: Option<Self>) {
        parse_u32(s)
    }

    fn exceeds_thousand(&self) -> (r: bool) {
        *self > 1000
    }

    fn checked_sum(&self, other: &Self) -> (r: Option<Self>) {
        self.checked_add(*other)
    }
}

/// Relies on `<u64 as FromStr>::from_str`: an optional `+` and one or more
/// ASCII digits whose value fits in `u64` read as that value; any other
/// text is an error.
#[verifier::external_body]
fn parse_u64(s: &str) -> (r: Option<u64>)
    ensures
        r is Some <==> (literal_value(s@) is Some && literal_value(s@)->0 <= u64::MAX),
        r is Some ==> r->0 == literal_value(s@)->0,
{
    s.parse::<u64>().ok()
}

impl NumericSummable for u64 {
    open spec fn spec_value(&self) -> int {
        *self as int
    }

    open spec fn spec_max() -> int {
        u64::MAX as int
    }

    open spec fn spec_parse(s: Seq<char>) -> Option<int> {
        if fits_literal(s, u64::MAX as int) {
            Some(literal_value(s)->0)
        } else {
            None
        }
    }

    proof fn lemma_value_at_most_max(&self) {
    }

    proof fn lemma_parse_unsigned_text(s: Seq<char>) {
    }

    fn zero() -> (r: Self) {
        0
    }

    fn parse_text(s: &str) -> (r: Option<Self>) {
        parse_u64(s)
    }

    fn exceeds_thousand(&self) -> (r: bool) {
        *self > 1000
    }

    fn checked_sum(&self, other: &Self) -> (r: Option<Self>) {
        self.checked_add(*other)
    }
}

/// Relies on `<u128 as FromStr>::from_str`: an optional `+` and one or more
/// ASCII digits whose value fits in `u128` read as that value; any other
/// text is an error.
#[verifier::external_body]
fn parse_u128(s: &str) -> (r: Option<u128>)
    ensures
        r is Some <==> (literal_value(s@) is Some && literal_value(s@)->0 <= u128::MAX),
        r is Some ==> r->0 == literal_value(s@)->0,
{
    s.parse::<u128>().ok()
}

impl NumericSummable for u128 {
    open spec fn spec_value(&self) -> int {
        *self as int
    }

    open spec fn spec_max() -> int {
        u128::MAX as int
    }

    open spec fn spec_parse(s: Seq<char>) -> Option<int> {
        if fits_literal(s, u128::MAX as int) {
            Some(literal_value(s)->0)
        } else {
            None
        }
    }

    proof fn lemma_value_at_most_max(&self) {
    }

    proof fn lemma_parse_unsigned_text(s: Seq<char>) {
    }

    fn zero() -> (r: Self) {
        0
    }

    fn parse_text(s: &str) -> (r: Option<Self>) {
        parse_u128(s)
    }

    fn exceeds_thousand(&self) -> (r: bool) {
        *self > 1000
    }

    fn checked_sum(&self, other: &Self) -> (r: Option<Self>) {
        self.checked_add(*other)
    }
}

/// Relies on `<usize as FromStr>::from_str`: an optional `+` and one or more
/// ASCII digits whose value fits in `usize` read as that value; any other
/// text is an error.
#[verifier::external_body]
fn parse_usize(s: &str) -> (r: Option<usize>)
    ensures
        r is Some <==> (literal_value(s@) is Some && literal_value(s@)->0 <= usize::MAX),
        r is Some ==> r->0 == literal_value(s@)->0,
{
    s.parse::<usize>().ok()
}

impl NumericSummable for usize {
    open spec fn spec_value(&self) -> int {
        *self as int
    }

    open spec fn spec_max() -> int {
        usize::MAX as int
    }

    open spec fn spec_parse(s: Seq<char>) -> Option<int> {
        if fits_literal(s, usize::MAX as int) {
            Some(literal_value(s)->0)
        } else {
            None
        }
    }

    proof fn lemma_value_at_most_max(&self) {
    }

    proof fn lemma_parse_unsigned_text(s: Seq<char>) {
    }

    fn zero() -> (r: Self) {
        0
    }

    fn parse_text(s: &str) -> (r: Option<Self>) {
        parse_usize(s)
    }

    fn exceeds_thousand(&self) -> (r: bool) {
        *self > 1000
    }

    fn checked_sum(&self, other: &Self) -> (r: Option<Self>) {
        self.checked_add(*other)
    }
}

/// Relies on `<i8 as FromStr>::from_str`: an optional `+` or `-` and one or
/// more ASCII digits whose value fits in `i8` read as that value; any other
/// text is an error.
#[verifier::external_body]
fn parse_i8(s: &str) -> (r: Option<i8>)
    ensures
        r is Some <==> (signed_literal_value(s@) is Some && i8::MIN <= signed_literal_value(s@)->0
            <= i8::MAX),
        r is Some ==> r->0 == signed_literal_value(s@)->0,
{
    s.parse::<i8>().ok()
}

impl NumericSummable for i8 {
    open spec fn spec_value(&self) -> int {
        *self as int
    }

    open spec fn spec_max() -> int {
        i8::MAX as int
    }

    open spec fn spec_parse(s: Seq<char>) -> Option<int> {
        match signed_literal_value(s) {
            Some(v) => if i8::MIN <= v && v <= i8::MAX {
                Some(v)
            } else {
                None
            },
            None => None,
        }
    }

    proof fn lemma_value_at_most_max(&self) {
    }

    proof fn lemma_parse_unsigned_text(s: Seq<char>) {
        lemma_unsigned_text(s);
    }

    fn zero() -> (r: Self) {
        0
    }

    fn parse_text(s: &str) -> (r: Option<Self>) {
        parse_i8(s)
    }

    fn exceeds_thousand(&self) -> (r: bool) {
        (*self as i16) > 1000
    }

    fn checked_sum(&self, other: &Self) -> (r: Option<Self>) {
        self.checked_add(*other)
    }
}

/// Relies on `<i16 as FromStr>::from_str`: an optional `+` or `-` and one or
/// more ASCII digits whose value fits in `i16` read as that value; any other
/// text is an error.
#[verifier::external_body]
fn parse_i16(s: &str) -> (r: Option<i16>)
    ensures
        r is Some <==> (signed_literal_value(s@) is Some && i16::MIN <= signed_literal_value(s@)->0
            <= i16::MAX),
        r is Some ==> r->0 == signed_literal_value(s@)->0,
{
    s.parse::<i16>().ok()
}

impl NumericSummable for i16 {
    open spec fn spec_value(&self) -> int {
        *self as int
    }

    open spec fn spec_max() -> int {
        i16::MAX as int
    }

    open spec fn spec_parse(s: Seq<char>) -> Option<int> {
        match signed_literal_value(s) {
            Some(v) => if i16::MIN <= v && v <= i16::MAX {
                Some(v)
            } else {
                None
            },
            None => None,
        }
    }

    proof fn lemma_value_at_most_max(&self) {
    }

    proof fn lemma_parse_unsigned_text(s: Seq<char>) {
        lemma_unsigned_text(s);
    }

    fn zero() -> (r: Self) {
        0
    }

    fn parse_text(s: &str) -> (r: Option<Self>) {
        parse_i16(s)
    }

    fn exceeds_thousand(&self) -> (r: bool) {
        *self > 1000
    }

    fn checked_sum(&self, other: &Self) -> (r: Option<Self>) {
        self.checked_add(*other)
    }
}

/// Relies on `<i32 as FromStr>::from_str`: an optional `+` or `-` and one or
/// more ASCII digits whose value fits in `i32` read as that value; any other
/// text is an error.
#[verifier::external_body]
fn parse_i32(s: &str) -> (r: Option<i32>)
    ensures
        r is Some <==> (signed_literal_value(s@) is Some && i32::MIN <= signed_literal_value(s@)->0
            <= i32::MAX),
        r is Some ==> r->0 == signed_literal_value(s@)->0,
{
    s.parse::<i32>().ok()
}

impl NumericSummable for i32 {
    open spec fn spec_value(&self) -> int {
        *self as int
    }

    open spec fn spec_max() -> int {
        i32::MAX as int
    }

    open spec fn spec_parse(s: Seq<char>) -> Option<int> {
        match signed_literal_value(s) {
            Some(v) => if i32::MIN <= v && v <= i32::MAX {
                Some(v)
            } else {
                None
            },
            None => None,
        }
    }

    proof fn lemma_value_at_most_max(&self) {
    }

    proof fn lemma_parse_unsigned_text(s: Seq<char>) {
        lemma_unsigned_text(s);
    }

    fn zero() -> (r: Self) {
        0
    }

    fn parse_text(s: &str) -> (r: Option<Self>) {
        parse_i32(s)
    }

    fn exceeds_thousand(&self) -> (r: bool) {
        *self > 1000
    }

    fn checked_sum(&self, other: &Self) -> (r: Option<Self>) {
        self.checked_add(*other)
    }
}

/// Relies on `<i64 as FromStr>::from_str`: an optional `+` or `-` and one or
/// more ASCII digits whose value fits in `i64` read as that value; any other
/// text is an error.
#[verifier::external_body]
fn parse_i64(s: &str) -> (r: Option<i64>)
    ensures
        r is Some <==> (signed_literal_value(s@) is Some && i64::MIN <= signed_literal_value(s@)->0
            <= i64::MAX),
        r is Some ==> r->0 == signed_literal_value(s@)->0,
{
    s.parse::<i64>().ok()
}

impl NumericSummable for i64 {
    open spec fn spec_value(&self) -> int {
        *self as int
    }

    open spec fn spec_max() -> int {
        i64::MAX as int
    }

    open spec fn spec_parse(s: Seq<char>) -> Option<int> {
        match signed_literal_value(s) {
            Some(v) => if i64::MIN <= v && v <= i64::MAX {
                Some(v)
            } else {
                None
            },
            None => None,
        }
    }

    proof fn lemma_value_at_most_max(&self) {
    }

    proof fn lemma_parse_unsigned_text(s: Seq<char>) {
        lemma_unsigned_text(s);
    }

    fn zero() -> (r: Self) {
        0
    }

    fn parse_text(s: &str) -> (r: Option<Self>) {
        parse_i64(s)
    }

    fn exceeds_thousand(&self) -> (r: bool) {
        *self > 1000
    }

    fn checked_sum(&self, other: &Self) -> (r: Option<Self>) {
        self.checked_add(*other)
    }
}

/// Relies on `<i128 as FromStr>::from_str`: an optional `+` or `-` and one or
/// more ASCII digits whose value fits in `i128` read as that value; any other
/// text is an error.
#[verifier::external_body]
fn parse_i128(s: &str) -> (r: Option<i128>)
    ensures
        r is Some <==> (signed_literal_value(s@) is Some && i128::MIN <= signed_literal_value(s@)->0
            <= i128::MAX),
        r is Some ==> r->0 == signed_literal_value(s@)->0,
{
    s.parse::<i128>().ok()
}

impl NumericSummable for i128 {
    open spec fn spec_value(&self) -> int {
        *self as int
    }

    open spec fn spec_max() -> int {
        i128::MAX as int
    }

    open spec fn spec_parse(s: Seq<char>) -> Option<int> {
        match signed_literal_value(s) {
            Some(v) => if i128::MIN <= v && v <= i128::MAX {
                Some(v)
            } else {
                None
            },
            None => None,
        }
    }

    proof fn lemma_value_at_most_max(&self) {
    }

    proof fn lemma_parse_unsigned_text(s: Seq<char>) {
        lemma_unsigned_text(s);
    }

    fn zero() -> (r: Self) {
        0
    }

    fn parse_text(s: &str) -> (r: Option<Self>) {
        parse_i128(s)
    }

    fn exceeds_thousand(&self) -> (r: bool) {
        *self > 1000
    }

    fn checked_sum(&self, other: &Self) -> (r: Option<Self>) {
        self.checked_add(*other)
    }
}

/// Relies on `<isize as FromStr>::from_str`: an optional `+` or `-` and one or
/// more ASCII digits whose value fits in `isize` read as that value; any other
/// text is an error.
#[verifier::external_body]
fn parse_isize(s: &str) -> (r: Option<isize>)
    ensures
        r is Some <==> (signed_literal_value(s@) is Some && isize::MIN <= signed_literal_value(s@)->0
            <= isize::MAX),
        r is Some ==> r->0 == signed_literal_value(s@)->0,
{
    s.parse::<isize>().ok()
}

impl NumericSummable for isize {
    open spec fn spec_value(&self) -> int {
        *self as int
    }

    open spec fn spec_max() -> int {
        isize::MAX as int
    }

    open spec fn spec_parse(s: Seq<char>) -> Option<int> {
        match signed_literal_value(s) {
            Some(v) => if isize::MIN <= v && v <= isize::MAX {
                Some(v)
            } else {
                None
            },
            None => None,
        }
    }

    proof fn lemma_value_at_most_max(&self) {
    }

    proof fn lemma_parse_unsigned_text(s: Seq<char>) {
        lemma_unsigned_text(s);
    }

    fn zero() -> (r: Self) {
        0
    }

    fn parse_text(s: &str) -> (r: Option<Self>) {
        parse_isize(s)
    }

    fn exceeds_thousand(&self) -> (r: bool) {
        *self > 1000
    }

    fn checked_sum(&self, other: &Self) -> (r: Option<Self>) {
        self.checked_add(*other)
    }
}

} // verus!
