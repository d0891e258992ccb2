//! The values of the dialogue machine: strings, numbers, booleans and null,
//! with their coercions, their equality and their order.
//!
//! Arithmetic on numbers is floating-point work and is done by the caller:
//! the arithmetic functions here decide what kind of result two operands give
//! and take the number that the caller computed for the numeric case.

use vstd::prelude::*;
use vstd::std_specs::cmp::PartialEqSpecImpl;
use vstd::std_specs::convert::FromSpecImpl;
use crate::number::{
    is_nan_bits, is_zero_bits, nan_view, negative_zero_view, number_equal, number_less, one_view,
    text_nan, zero_view, Number, NumberView, SIGN_BIT,
};
use crate::text::{
    chars_of, is_blank, is_white_space, is_whitespace, text_before, text_less,
};

verus! {

pub open spec fn text_true() -> Seq<char> {
    seq!['T', 'r', 'u', 'e']
}

pub open spec fn text_false() -> Seq<char> {
    seq!['F', 'a', 'l', 's', 'e']
}

pub open spec fn text_null() -> Seq<char> {
    seq!['n', 'u', 'l', 'l']
}

/// What a [`YarnValue`] is in contracts.
pub enum ValueView {
    Str(Seq<char>),
    Bool(bool),
    Number(NumberView),
    Null,
}

/// A value of the dialogue machine.
#[derive(Debug)]
pub enum YarnValue {
    Str(String),
    Bool(bool),
    Number(Number),
    Null,
}

impl View for YarnValue {
    type V = ValueView;

    open spec fn view(&self) -> ValueView {
        match self {
            YarnValue::Str(text) => ValueView::Str(text@),
            YarnValue::Bool(flag) => ValueView::Bool(*flag),
            YarnValue::Number(number) => ValueView::Number(number@),
            YarnValue::Null => ValueView::Null,
        }
    }
}

/// The views of a sequence of values, one for one.
pub open spec fn views_of(values: Seq<YarnValue>) -> Seq<ValueView> {
    Seq::new(values.len(), |i: int| values[i]@)
}

impl ValueView {
    /// The value as text: a string is itself, a number its text (`NaN` for
    /// every NaN), a boolean `True` or `False`, null `null`.
    pub open spec fn as_string(self) -> Seq<char> {
        match self {
            ValueView::Str(text) => text,
            ValueView::Number(number) => if is_nan_bits(number.bits) {
                text_nan()
            } else {
                number.text
            },
            ValueView::Bool(flag) => if flag {
                text_true()
            } else {
                text_false()
            },
            ValueView::Null => text_null(),
        }
    }

    /// The value as a truth value: true for a string that is not empty, for a
    /// number that is neither zero nor NaN, and for `true`.
    pub open spec fn as_bool(self) -> bool {
        match self {
            ValueView::Str(text) => text.len() > 0,
            ValueView::Bool(flag) => flag,
            ValueView::Number(number) => !is_nan_bits(number.bits) && !is_zero_bits(number.bits),
            ValueView::Null => false,
        }
    }

    /// The value as a number, where `parsed` is the number that the text of a
    /// string stands for: a boolean is one or zero, null is zero.
    pub open spec fn as_number(self, parsed: NumberView) -> NumberView {
        match self {
            ValueView::Str(_) => parsed,
            ValueView::Number(number) => number,
            ValueView::Bool(flag) => if flag {
                one_view()
            } else {
                zero_view()
            },
            ValueView::Null => zero_view(),
        }
    }

    /// Equality of values: of the same kind and equal in it, numbers as
    /// numbers (a NaN equals nothing, the two zeros are equal).
    pub open spec fn equals(self, other: ValueView) -> bool {
        match (self, other) {
            (ValueView::Str(a), ValueView::Str(b)) => a == b,
            (ValueView::Bool(a), ValueView::Bool(b)) => a == b,
            (ValueView::Number(a), ValueView::Number(b)) => number_equal(a.bits, b.bits),
            (ValueView::Null, ValueView::Null) => true,
            _ => false,
        }
    }

    /// The order of values: defined between two numbers and between two
    /// strings; nothing else is smaller than anything.
    pub open spec fn less_than(self, other: ValueView) -> bool {
        match (self, other) {
            (ValueView::Str(a), ValueView::Str(b)) => text_less(a, b),
            (ValueView::Number(a), ValueView::Number(b)) => number_less(a.bits, b.bits),
            _ => false,
        }
    }

    pub open spec fn is_numeric_operand(self) -> bool {
        self is Number || self is Null
    }

    /// The sum of two values, where `sum` is the sum of the two as numbers:
    /// with a string on either side the two texts joined, the sum otherwise.
    pub open spec fn add(self, other: ValueView, sum: NumberView) -> Option<ValueView> {
        if self is Str || other is Str {
            Some(ValueView::Str(self.as_string() + other.as_string()))
        } else {
            Some(ValueView::Number(sum))
        }
    }

    /// The result of subtracting, multiplying, dividing or taking the
    /// remainder, where `result` is what the operation gives on the two as
    /// numbers, null counting as zero: that number where each side is a
    /// number or null, nothing where a string or a boolean is involved.
    pub open spec fn arithmetic(self, other: ValueView, result: NumberView) -> Option<ValueView> {
        if self.is_numeric_operand() && other.is_numeric_operand() {
            Some(ValueView::Number(result))
        } else {
            None
        }
    }

    /// The negation, where `negated_text` is the text of the negated number:
    /// a number with its sign bit flipped, negative zero for null and for a
    /// blank string, NaN for everything else.
    pub open spec fn neg(self, negated_text: Seq<char>) -> ValueView {
        match self {
            ValueView::Number(number) => ValueView::Number(
                NumberView { bits: number.bits ^ SIGN_BIT, text: negated_text },
            ),
            ValueView::Str(text) => if is_blank(text) {
                ValueView::Number(negative_zero_view())
            } else {
                ValueView::Number(nan_view())
            },
            ValueView::Null => ValueView::Number(negative_zero_view()),
            ValueView::Bool(_) => ValueView::Number(nan_view()),
        }
    }
}

/// Whether every character of `text` is white space.
pub fn blank(text: &str) -> (all: bool)
    ensures
        all == is_blank(text@),
{
    let chars = chars_of(text);
    let mut i: usize = 0;
    while i < chars.len()
        invariant
            chars@ == text@,
            i <= chars.len(),
            forall|j: int| 0 <= j < i ==> is_white_space(#[trigger] chars@[j]),
        decreases chars.len() - i,
    {
        if !is_whitespace(chars[i]) {
            return false;
        }
        i += 1;
    }
    true
}

impl YarnValue {
    /// The value as text.
    pub fn as_string(&self) -> (text: String)
        ensures
            text@ == self@.as_string(),
    {
        match self {
            YarnValue::Str(val) => val.clone(),
            YarnValue::Number(val) => {
                if val.is_nan() {
                    let text = "NaN".to_owned();
                    proof {
                        reveal_strlit("NaN");
                        assert(text@ =~= text_nan());
                    }
                    text
                } else {
                    val.text.clone()
                }
            },
            YarnValue::Bool(val) => {
                if *val {
                    let text = "True".to_owned();
                    proof {
                        reveal_strlit("True");
                        assert(text@ =~= text_true());
                    }
                    text
                } else {
                    let text = "False".to_owned();
                    proof {
                        reveal_strlit("False");
                        assert(text@ =~= text_false());
                    }
                    text
                }
            },
            YarnValue::Null => {
                let text = "null".to_owned();
                proof {
                    reveal_strlit("null");
                    assert(text@ =~= text_null());
                }
                text
            },
        }
    }

    /// The value as a number. `parsed` is the number that the text of a
    /// string stands for, zero where it stands for none; it is returned for
    /// a string and ignored otherwise.
    pub fn as_number(&self, parsed: Number) -> (number: Number)
        ensures
            number@ == self@.as_number(parsed@),
    {
        match self {
            YarnValue::Str(_) => parsed,
            YarnValue::Number(val) => val.clone(),
            YarnValue::Bool(val) => {
                if *val {
                    Number::one()
                } else {
                    Number::zero()
                }
            },
            YarnValue::Null => Number::zero(),
        }
    }

    /// The value as a truth value.
    pub fn as_bool(&self) -> (truth: bool)
        ensures
            truth == self@.as_bool(),
    {
        match self {
            YarnValue::Str(val) => !val.as_str().is_empty(),
            YarnValue::Bool(val) => *val,
            YarnValue::Number(val) => !val.is_nan() && !val.is_zero(),
            YarnValue::Null => false,
        }
    }

    /// Whether the two values are equal.
    pub fn equals(&self, other: &YarnValue) -> (equal: bool)
        ensures
            equal == self@.equals(other@),
    {
        match (self, other) {
            (YarnValue::Str(a), YarnValue::Str(b)) => *a == *b,
            (YarnValue::Bool(a), YarnValue::Bool(b)) => *a == *b,
            (YarnValue::Number(a), YarnValue::Number(b)) => a.equals(b),
            (YarnValue::Null, YarnValue::Null) => true,
            _ => false,
        }
    }

    /// Whether this value is smaller than the other.
    pub fn less_than(&self, other: &YarnValue) -> (less: bool)
        ensures
            less == self@.less_than(other@),
    {
        match (self, other) {
            (YarnValue::Str(a), YarnValue::Str(b)) => text_before(a.as_str(), b.as_str()),
            (YarnValue::Number(a), YarnValue::Number(b)) => a.less_than(b),
            _ => false,
        }
    }

    /// The sum of two values, which there always is. `sum` is the sum of the
    /// two as numbers, which the caller computes; it is the result where no
    /// string is involved and ignored otherwise.
    pub fn add(&self, other: &YarnValue, sum: Number) -> (result: Option<YarnValue>)
        ensures
            match result {
                Some(value) => self@.add(other@, sum@) == Some(value@),
                None => self@.add(other@, sum@) is None,
            },
    {
        match (self, other) {
            (YarnValue::Str(_), _) | (_, YarnValue::Str(_)) => {
                let left = self.as_string();
                let right = other.as_string();
                Some(YarnValue::Str(left.concat(right.as_str())))
            },
            _ => Some(YarnValue::Number(sum)),
        }
    }

    /// The difference of two values, where `difference` is the difference of
    /// the two as numbers.
    pub fn sub(&self, other: &YarnValue, difference: Number) -> (result: Option<YarnValue>)
        ensures
            match result {
                Some(value) => self@.arithmetic(other@, difference@) == Some(value@),
                None => self@.arithmetic(other@, difference@) is None,
            },
    {
        self.numeric(other, difference)
    }

    /// The product of two values, where `product` is the product of the two
    /// as numbers.
    pub fn mul(&self, other: &YarnValue, product: Number) -> (result: Option<YarnValue>)
        ensures
            match result {
                Some(value) => self@.arithmetic(other@, product@) == Some(value@),
                None => self@.arithmetic(other@, product@) is None,
            },
    {
        self.numeric(other, product)
    }

    /// The quotient of two values, where `quotient` is the quotient of the
    /// two as numbers.
    pub fn div(&self, other: &YarnValue, quotient: Number) -> (result: Option<YarnValue>)
        ensures
            match result {
                Some(value) => self@.arithmetic(other@, quotient@) == Some(value@),
                None => self@.arithmetic(other@, quotient@) is None,
            },
    {
        self.numeric(other, quotient)
    }

    /// The remainder of two values, where `remainder` is the remainder of the
    /// two as numbers.
    pub fn rem(&self, other: &YarnValue, remainder: Number) -> (result: Option<YarnValue>)
        ensures
            match result {
                Some(value) => self@.arithmetic(other@, remainder@) == Some(value@),
                None => self@.arithmetic(other@, remainder@) is None,
            },
    {
        self.numeric(other, remainder)
    }

    /// The negation of a value, where `negated_text` is the text of the
    /// negated number; it is used for a number and ignored otherwise.
    pub fn neg(&self, negated_text: String) -> (result: YarnValue)
        ensures
            result@ == self@.neg(negated_text@),
    {
        match self {
            YarnValue::Number(val) => YarnValue::Number(
                Number::new(val.bits ^ SIGN_BIT, negated_text),
            ),
            YarnValue::Str(val) => {
                if blank(val.as_str()) {
                    YarnValue::Number(Number::negative_zero())
                } else {
                    YarnValue::Number(Number::nan())
                }
            },
            YarnValue::Null => YarnValue::Number(Number::negative_zero()),
            YarnValue::Bool(_) => YarnValue::Number(Number::nan()),
        }
    }

    fn numeric(&self, other: &YarnValue, result: Number) -> (value: Option<YarnValue>)
        ensures
            match value {
                Some(value) => self@.arithmetic(other@, result@) == Some(value@),
                None => self@.arithmetic(other@, result@) is None,
            },
    {
        match (self, other) {
            (YarnValue::Number(_), YarnValue::Number(_))
            | (YarnValue::Number(_), YarnValue::Null)
            | (YarnValue::Null, YarnValue::Number(_))
            | (YarnValue::Null, YarnValue::Null) => Some(YarnValue::Number(result)),
            _ => None,
        }
    }
}

impl Clone for YarnValue {
    fn clone(&self) -> (value: YarnValue)
        ensures
            value@ == self@,
    {
        match self {
            YarnValue::Str(val) => YarnValue::Str(val.clone()),
            YarnValue::Bool(val) => YarnValue::Bool(*val),
            YarnValue::Number(val) => YarnValue::Number(val.clone()),
            YarnValue::Null => YarnValue::Null,
        }
    }
}

impl PartialEq for YarnValue {
    fn eq(&self, other: &YarnValue) -> (equal: bool) {
        self.equals(other)
    }
}

impl PartialEqSpecImpl for YarnValue {
    open spec fn obeys_eq_spec() -> bool {
        true
    }

    open spec fn eq_spec(&self, other: &YarnValue) -> bool {
        self@.equals(other@)
    }
}

impl From<String> for YarnValue {
    fn from(val: String) -> (value: YarnValue) {
        YarnValue::Str(val)
    }
}

impl FromSpecImpl<String> for YarnValue {
    open spec fn obeys_from_spec() -> bool {
        true
    }

    open spec fn from_spec(val: String) -> YarnValue {
        YarnValue::Str(val)
    }
}

impl From<Number> for YarnValue {
    fn from(val: Number) -> (value: YarnValue) {
        YarnValue::Number(val)
    }
}

impl FromSpecImpl<Number> for YarnValue {
    open spec fn obeys_from_spec() -> bool {
        true
    }

    open spec fn from_spec(val: Number) -> YarnValue {
        YarnValue::Number(val)
    }
}

impl From<bool> for YarnValue {
    fn from(val: bool) -> (value: YarnValue) {
        YarnValue::Bool(val)
    }
}

impl FromSpecImpl<bool> for YarnValue {
    open spec fn obeys_from_spec() -> bool {
        true
    }

    open spec fn from_spec(val: bool) -> YarnValue {
        YarnValue::Bool(val)
    }
}

/// Turning a value that is a string or `true` into text and that text into a
/// string value keeps its truth.
pub proof fn lemma_text_keeps_truth(value: ValueView)
    requires
        value is Str || value == ValueView::Bool(true),
    ensures
        ValueView::Str(value.as_string()).as_bool() == value.as_bool(),
{
}

} // verus!
