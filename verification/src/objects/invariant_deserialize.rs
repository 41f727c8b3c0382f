//! Decoding of a field that the remote API writes now as a number and now as
//! a string holding that number, depending on the method and the version that
//! answered.

use crate::decimal::{parse_decimal, decimal_text, read_signed, signed_text, unsigned_text};
use crate::json::{JsonValue, JsonView};
use core::marker::PhantomData;
use vstd::prelude::*;
use vstd::string::StringExecFns;

verus! {

/// Why a field was rejected: the value that was found, and the name of the
/// type that was asked for.
#[derive(Debug, PartialEq, Eq)]
pub struct DecodeError {
    pub value: JsonValue,
    pub target: String,
}

/// The mathematical value of a [`DecodeError`].
pub struct DecodeErrorView {
    pub value: JsonView,
    pub target: Seq<char>,
}

impl View for DecodeError {
    type V = DecodeErrorView;

    open spec fn view(&self) -> DecodeErrorView {
        DecodeErrorView { value: self.value@, target: self.target@ }
    }
}

/// `num`'s `FromPrimitive::from_u64` for `i8`: the argument as an `i8` where
/// an `i8` can hold it, else `None`.
#[verifier::external_body]
fn i8_from_u64(v: u64) -> (r: Option<i8>)
    ensures
        r == (if v <= i8::MAX as u64 { Some(v as i8) } else { None }),
{
    <i8 as num::FromPrimitive>::from_u64(v)
}

/// `num`'s `FromPrimitive::from_i64` for `i8`: the argument as an `i8` where
/// an `i8` can hold it, else `None`.
#[verifier::external_body]
fn i8_from_i64(v: i64) -> (r: Option<i8>)
    ensures
        r == (if i8::MIN as i64 <= v && v <= i8::MAX as i64 { Some(v as i8) } else { None }),
{
    <i8 as num::FromPrimitive>::from_i64(v)
}

/// `num`'s `FromPrimitive::from_u64` for `i16`: the argument as an `i16`
/// where an `i16` can hold it, else `None`.
#[verifier::external_body]
fn i16_from_u64(v: u64) -> (r: Option<i16>)
    ensures
        r == (if v <= i16::MAX as u64 { Some(v as i16) } else { None }),
{
    <i16 as num::FromPrimitive>::from_u64(v)
}

/// `num`'s `FromPrimitive::from_i64` for `i16`: the argument as an `i16`
/// where an `i16` can hold it, else `None`.
#[verifier::external_body]
fn i16_from_i64(v: i64) -> (r: Option<i16>)
    ensures
        r == (if i16::MIN as i64 <= v && v <= i16::MAX as i64 { Some(v as i16) } else { None }),
{
    <i16 as num::FromPrimitive>::from_i64(v)
}

/// `num`'s `FromPrimitive::from_u64` for `i32`: the argument as an `i32`
/// where an `i32` can hold it, else `None`.
#[verifier::external_body]
fn i32_from_u64(v: u64) -> (r: Option<i32>)
    ensures
        r == (if v <= i32::MAX as u64 { Some(v as i32) } else { None }),
{
    <i32 as num::FromPrimitive>::from_u64(v)
}

/// `num`'s `FromPrimitive::from_i64` for `i32`: the argument as an `i32`
/// where an `i32` can hold it, else `None`.
#[verifier::external_body]
fn i32_from_i64(v: i64) -> (r: Option<i32>)
    ensures
        r == (if i32::MIN as i64 <= v && v <= i32::MAX as i64 { Some(v as i32) } else { None }),
{
    <i32 as num::FromPrimitive>::from_i64(v)
}

/// `num`'s `FromPrimitive::from_u64` for `i64`: the argument as an `i64`
/// where an `i64` can hold it, else `None`.
#[verifier::external_body]
fn i64_from_u64(v: u64) -> (r: Option<i64>)
    ensures
        r == (if v <= i64::MAX as u64 { Some(v as i64) } else { None }),
{
    <i64 as num::FromPrimitive>::from_u64(v)
}

/// `num`'s `FromPrimitive::from_i64` for `i64`: the argument itself.
#[verifier::external_body]
fn i64_from_i64(v: i64) -> (r: Option<i64>)
    ensures
        r == Some(v),
{
    <i64 as num::FromPrimitive>::from_i64(v)
}

/// A signed integer type that a field can be decoded into.
pub trait WireInteger: Sized + Copy {
    /// The least value of the type.
    spec fn least() -> int;

    /// The greatest value of the type.
    spec fn greatest() -> int;

    /// The integer that a value of the type holds.
    spec fn as_int(self) -> int;

    /// The name of the type.
    spec fn name() -> Seq<char>;

    /// The type holds no more than an `i64` does.
    proof fn lemma_bounds()
        ensures
            i64::MIN <= Self::least() <= Self::greatest() <= i64::MAX,
    ;

    /// No two values of the type hold the same integer.
    proof fn lemma_as_int_one_to_one(a: Self, b: Self)
        ensures
            a.as_int() == b.as_int() ==> a == b,
    ;

    /// `v` in this type, where the type can hold it.
    fn from_u64(v: u64) -> (r: Option<Self>)
        ensures
            match r {
                Some(x) => x.as_int() == v && Self::least() <= v <= Self::greatest(),
                None => !(Self::least() <= v <= Self::greatest()),
            },
    ;

    /// `v` in this type, where the type can hold it.
    fn from_i64(v: i64) -> (r: Option<Self>)
        ensures
            match r {
                Some(x) => x.as_int() == v && Self::least() <= v <= Self::greatest(),
                None => !(Self::least() <= v <= Self::greatest()),
            },
    ;

    /// The name of the type.
    fn label() -> (r: &'static str)
        ensures
            r@ == Self::name(),
    ;
}

impl WireInteger for i8 {
    open spec fn least() -> int {
        i8::MIN as int
    }

    open spec fn greatest() -> int {
        i8::MAX as int
    }

    open spec fn as_int(self) -> int {
        self as int
    }

    open spec fn name() -> Seq<char> {
        "i8"@
    }

    proof fn lemma_bounds() {
    }

    proof fn lemma_as_int_one_to_one(a: Self, b: Self) {
    }

    fn from_u64(v: u64) -> (r: Option<Self>) {
        i8_from_u64(v)
    }

    fn from_i64(v: i64) -> (r: Option<Self>) {
        i8_from_i64(v)
    }

    fn label() -> (r: &'static str) {
        "i8"
    }
}

impl WireInteger for i16 {
    open spec fn least() -> int {
        i16::MIN as int
    }

    open spec fn greatest() -> int {
        i16::MAX as int
    }

    open spec fn as_int(self) -> int {
        self as int
    }

    open spec fn name() -> Seq<char> {
        "i16"@
    }

    proof fn lemma_bounds() {
    }

    proof fn lemma_as_int_one_to_one(a: Self, b: Self) {
    }

    fn from_u64(v: u64) -> (r: Option<Self>) {
        i16_from_u64(v)
    }

    fn from_i64(v: i64) -> (r: Option<Self>) {
        i16_from_i64(v)
    }

    fn label() -> (r: &'static str) {
        "i16"
    }
}

impl WireInteger for i32 {
    open spec fn least() -> int {
        i32::MIN as int
    }

    open spec fn greatest() -> int {
        i32::MAX as int
    }

    open spec fn as_int(self) -> int {
        self as int
    }

    open spec fn name() -> Seq<char> {
        "i32"@
    }

    proof fn lemma_bounds() {
    }

    proof fn lemma_as_int_one_to_one(a: Self, b: Self) {
    }

    fn from_u64(v: u64) -> (r: Option<Self>) {
        i32_from_u64(v)
    }

    fn from_i64(v: i64) -> (r: Option<Self>) {
        i32_from_i64(v)
    }

    fn label() -> (r: &'static str) {
        "i32"
    }
}

impl WireInteger for i64 {
    open spec fn least() -> int {
        i64::MIN as int
    }

    open spec fn greatest() -> int {
        i64::MAX as int
    }

    open spec fn as_int(self) -> int {
        self as int
    }

    open spec fn name() -> Seq<char> {
        "i64"@
    }

    proof fn lemma_bounds() {
    }

    proof fn lemma_as_int_one_to_one(a: Self, b: Self) {
    }

    fn from_u64(v: u64) -> (r: Option<Self>) {
        i64_from_u64(v)
    }

    fn from_i64(v: i64) -> (r: Option<Self>) {
        i64_from_i64(v)
    }

    fn label() -> (r: &'static str) {
        "i64"
    }
}

/// The integer that a document stands for, where it lies between `least`
/// and `greatest`: a number that is an integer stands for itself, a string
/// for the integer it is a decimal numeral of. A floating-point number, a
/// string that is no numeral, and every other kind of document stand for
/// none.
pub open spec fn integer_of(doc: JsonView, least: int, greatest: int) -> Option<int> {
    match doc {
        JsonView::Unsigned(n) => if least <= n <= greatest {
            Some(n as int)
        } else {
            None
        },
        JsonView::Signed(n) => if least <= n <= greatest {
            Some(n as int)
        } else {
            None
        },
        JsonView::Str(s) => match parse_decimal(s) {
            Some(n) => if least <= n <= greatest {
                Some(n)
            } else {
                None
            },
            None => None,
        },
        _ => None,
    }
}

/// The text that a document stands for: a string stands for itself, an
/// integer for its decimal text, a floating-point number for the decimal
/// text it is held as. Every other kind of document stands for none.
pub open spec fn text_of(doc: JsonView) -> Option<Seq<char>> {
    match doc {
        JsonView::Unsigned(n) => Some(decimal_text(n as int)),
        JsonView::Signed(n) => Some(decimal_text(n as int)),
        JsonView::Float(text) => Some(text),
        JsonView::Str(s) => Some(s),
        _ => None,
    }
}

/// The error that rejects `doc` for the type named `target`.
pub open spec fn rejection(doc: JsonView, target: Seq<char>) -> DecodeErrorView {
    DecodeErrorView { value: doc, target }
}

/// What decoding `doc` into the integer type `T` owes: the integer that
/// `doc` stands for within `T`, or else the error that names `doc` and `T`.
pub open spec fn integer_decoded<T: WireInteger>(doc: JsonView, r: Result<T, DecodeError>) -> bool {
    match r {
        Ok(v) => integer_of(doc, T::least(), T::greatest()) == Some(v.as_int()),
        Err(e) => integer_of(doc, T::least(), T::greatest()) is None && e@ == rejection(
            doc,
            T::name(),
        ),
    }
}

/// What decoding `doc` into a string owes: the text that `doc` stands for,
/// or else the error that names `doc` and `String`.
pub open spec fn text_decoded(doc: JsonView, r: Result<String, DecodeError>) -> bool {
    match r {
        Ok(text) => text_of(doc) == Some(text@),
        Err(e) => text_of(doc) is None && e@ == rejection(doc, "String"@),
    }
}

/// What is said of a value that [`ToNum`] rejects, for the type named
/// `name`.
pub open spec fn integer_expectation(name: Seq<char>) -> Seq<char> {
    "a string representing legal "@ + name + " value or a value of "@ + name + " itself"@
}

/// Decodes an integer of type `T` from a number or from a string that holds
/// its decimal numeral.
pub struct ToNum<T> {
    _phantom: PhantomData<T>,
}

impl<T: WireInteger> ToNum<T> {
    pub fn new() -> (visitor: Self) {
        Self { _phantom: PhantomData }
    }

    /// What this decoder accepts, in words.
    pub fn expecting(&self) -> (text: String)
        ensures
            text@ == integer_expectation(T::name()),
    {
        let mut text = String::from_str("a string representing legal ");
        text.append(T::label());
        text.append(" value or a value of ");
        text.append(T::label());
        text.append(" itself");
        text
    }

    /// Decodes from the text of a string.
    pub fn visit_str(self, s: &str) -> (r: Result<T, DecodeError>)
        ensures
            integer_decoded(JsonView::Str(s@), r),
    {
        let read = match read_signed(s) {
            Some(n) => T::from_i64(n),
            None => None,
        };
        match read {
            Some(v) => Ok(v),
            None => {
                proof {
                    T::lemma_bounds();
                }
                Err(
                    DecodeError {
                        value: JsonValue::Str(s.to_owned()),
                        target: T::label().to_owned(),
                    },
                )
            },
        }
    }

    /// Decodes from an unsigned number.
    pub fn visit_u64(self, v: u64) -> (r: Result<T, DecodeError>)
        ensures
            integer_decoded(JsonView::Unsigned(v), r),
    {
        match T::from_u64(v) {
            Some(x) => Ok(x),
            None => Err(
                DecodeError { value: JsonValue::Unsigned(v), target: T::label().to_owned() },
            ),
        }
    }

    /// Decodes from a signed number.
    pub fn visit_i64(self, v: i64) -> (r: Result<T, DecodeError>)
        ensures
            integer_decoded(JsonView::Signed(v), r),
    {
        match T::from_i64(v) {
            Some(x) => Ok(x),
            None => Err(
                DecodeError { value: JsonValue::Signed(v), target: T::label().to_owned() },
            ),
        }
    }

    /// Decodes a field that must be there.
    pub fn deserialize(value: &JsonValue) -> (r: Result<T, DecodeError>)
        ensures
            integer_decoded(value@, r),
    {
        let visitor = ToNum::<T>::new();
        match value {
            JsonValue::Unsigned(n) => visitor.visit_u64(*n),
            JsonValue::Signed(n) => visitor.visit_i64(*n),
            JsonValue::Str(s) => visitor.visit_str(s.as_str()),
            _ => Err(DecodeError { value: value.duplicate(), target: T::label().to_owned() }),
        }
    }

    /// Decodes a field that may be missing: a missing field is `None`, and
    /// a field that is there is decoded as by [`ToNum::deserialize`].
    pub fn deserialize_opt(value: Option<&JsonValue>) -> (r: Result<Option<T>, DecodeError>)
        ensures
            match value {
                None => r == Ok::<Option<T>, DecodeError>(None),
                Some(doc) => match r {
                    Ok(found) => found matches Some(v) && integer_decoded(doc@, Ok::<T, DecodeError>(v)),
                    Err(e) => integer_decoded(doc@, Err::<T, DecodeError>(e)),
                },
            },
    {
        match value {
            None => Ok(None),
            Some(doc) => match ToNum::<T>::deserialize(doc) {
                Ok(v) => Ok(Some(v)),
                Err(e) => Err(e),
            },
        }
    }
}

/// What is said of a value that [`ToStr`] rejects.
pub open spec fn text_expectation() -> Seq<char> {
    "a string or a value of type that implements ToString"@
}

/// Decodes a string from a string, or from a number by writing it out.
pub struct ToStr;

impl ToStr {
    /// What this decoder accepts, in words.
    pub fn expecting(&self) -> (text: String)
        ensures
            text@ == text_expectation(),
    {
        String::from_str("a string or a value of type that implements ToString")
    }

    /// Decodes from the text of a string: the text itself.
    pub fn visit_str(self, s: &str) -> (r: Result<String, DecodeError>)
        ensures
            r is Ok,
            text_decoded(JsonView::Str(s@), r),
    {
        Ok(s.to_owned())
    }

    /// Decodes from an unsigned number: its decimal text.
    pub fn visit_u64(self, v: u64) -> (r: Result<String, DecodeError>)
        ensures
            r is Ok,
            text_decoded(JsonView::Unsigned(v), r),
    {
        Ok(unsigned_text(v))
    }

    /// Decodes from a signed number: its decimal text.
    pub fn visit_i64(self, v: i64) -> (r: Result<String, DecodeError>)
        ensures
            r is Ok,
            text_decoded(JsonView::Signed(v), r),
    {
        Ok(signed_text(v))
    }

    /// Decodes from a floating-point number, given as the decimal text that
    /// a document holds it as: that text.
    pub fn visit_f64(self, text: &str) -> (r: Result<String, DecodeError>)
        ensures
            r is Ok,
            text_decoded(JsonView::Float(text@), r),
    {
        Ok(text.to_owned())
    }

    /// Decodes a field that must be there.
    pub fn deserialize(value: &JsonValue) -> (r: Result<String, DecodeError>)
        ensures
            text_decoded(value@, r),
    {
        match value {
            JsonValue::Unsigned(n) => ToStr.visit_u64(*n),
            JsonValue::Signed(n) => ToStr.visit_i64(*n),
            JsonValue::Float(text) => ToStr.visit_f64(text.as_str()),
            JsonValue::Str(s) => ToStr.visit_str(s.as_str()),
            _ => Err(DecodeError { value: value.duplicate(), target: String::from_str("String") }),
        }
    }

    /// Decodes a field that may be missing: a missing field is `None`, and
    /// a field that is there is decoded as by [`ToStr::deserialize`].
    pub fn deserialize_opt(value: Option<&JsonValue>) -> (r: Result<Option<String>, DecodeError>)
        ensures
            match value {
                None => r == Ok::<Option<String>, DecodeError>(None),
                Some(doc) => match r {
                    Ok(found) => found matches Some(text) && text_decoded(
                        doc@,
                        Ok::<String, DecodeError>(text),
                    ),
                    Err(e) => text_decoded(doc@, Err::<String, DecodeError>(e)),
                },
            },
    {
        match value {
            None => Ok(None),
            Some(doc) => match ToStr::deserialize(doc) {
                Ok(text) => Ok(Some(text)),
                Err(e) => Err(e),
            },
        }
    }
}

/// A document decodes into `T` in one way only: two results that both are
/// what decoding `doc` owes hold the same value, or are both errors with
/// the same view.
pub proof fn lemma_integer_decoded_once<T: WireInteger>(
    doc: JsonView,
    first: Result<T, DecodeError>,
    second: Result<T, DecodeError>,
)
    requires
        integer_decoded(doc, first),
        integer_decoded(doc, second),
    ensures
        first is Ok <==> second is Ok,
        first matches Ok(a) ==> second == Ok::<T, DecodeError>(a),
        first matches Err(e) ==> second matches Err(f) && e@ == f@,
{
    if let Ok(a) = first {
        if let Ok(b) = second {
            T::lemma_as_int_one_to_one(a, b);
        }
    }
}

/// A number and the string that holds its decimal text decode to the same
/// integer: for each `n` that `T` can hold, the signed number `n`, the
/// unsigned number `n` where `n` is not negative, and the string of the
/// decimal text of `n` all stand for `n` within `T`.
pub proof fn lemma_number_and_numeral_agree<T: WireInteger>(n: int)
    requires
        T::least() <= n <= T::greatest(),
    ensures
        i64::MIN <= n <= i64::MAX,
        integer_of(JsonView::Str(decimal_text(n)), T::least(), T::greatest()) == Some(n),
        integer_of(JsonView::Signed(n as i64), T::least(), T::greatest()) == integer_of(
            JsonView::Str(decimal_text(n)),
            T::least(),
            T::greatest(),
        ),
        0 <= n ==> integer_of(JsonView::Unsigned(n as u64), T::least(), T::greatest())
            == integer_of(JsonView::Str(decimal_text(n)), T::least(), T::greatest()),
{
    T::lemma_bounds();
    crate::decimal::lemma_parse_decimal_text(n);
}

/// A fraction is never taken for an integer: a floating-point number
/// stands for no integer, nor does a string that holds a `.`, whatever the
/// digits after it.
pub proof fn lemma_fraction_is_rejected(doc: JsonView, least: int, greatest: int)
    requires
        doc is Float || (doc matches JsonView::Str(s) && s.contains('.')),
    ensures
        integer_of(doc, least, greatest) is None,
{
    if let JsonView::Str(s) = doc {
        let i = choose|i: int| 0 <= i < s.len() && s[i] == '.';
        crate::decimal::lemma_numeral_has_digits_only(s, i);
    }
}

/// An integer that is written out as a string reads back as itself: the
/// text that a number stands for stands, as a string, for that number.
pub proof fn lemma_text_of_number_reads_back<T: WireInteger>(doc: JsonView)
    requires
        doc is Unsigned || doc is Signed,
        integer_of(doc, T::least(), T::greatest()) is Some,
    ensures
        text_of(doc) is Some,
        integer_of(JsonView::Str(text_of(doc)->0), T::least(), T::greatest()) == integer_of(
            doc,
            T::least(),
            T::greatest(),
        ),
{
    match doc {
        JsonView::Unsigned(n) => crate::decimal::lemma_parse_decimal_text(n as int),
        JsonView::Signed(n) => crate::decimal::lemma_parse_decimal_text(n as int),
        _ => {},
    }
}

} // verus!
