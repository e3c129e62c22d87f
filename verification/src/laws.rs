//! What holds of every value: how the conversions, the unary operators and
//! equality behave together.

use crate::descriptor::Field;
use crate::descriptor::LoxObject;
use crate::equality::same_fields;
use crate::equality::same_values;
use crate::error::ValueError;
use crate::float::is_representable;
use crate::float::magnitude;
use crate::float::Float32;
use crate::float_laws::lemma_from_int_is_nearest;
use crate::float_laws::lemma_negated_twice;
use crate::float_laws::lemma_representable_integer_is_kept;
use crate::float_laws::lemma_truncated_toward_zero;
use crate::value::Value;
use std::rc::Rc;
use vstd::prelude::*;

verus! {

/// An integer converts to itself.
pub proof fn lemma_integer_converts_to_itself(n: i64)
    ensures
        (Value::Integer { value: n }).as_integer() == Ok::<i64, ValueError>(n),
{
}

/// An integer that is the value of some float converts to that float: the
/// float is finite, has the sign of the integer and its magnitude, and
/// converts back to the integer.
pub proof fn lemma_integer_widens_exactly(n: i64)
    requires
        is_representable(n as int),
    ensures
        (Value::Integer { value: n }).as_float() matches Ok(f) && {
            &&& f.is_finite()
            &&& n != 0 ==> f.is_negative() == (n < 0)
            &&& f.numerator() == magnitude(n as int) * f.denominator()
            &&& (Value::Float { value: f }).as_integer() == Ok::<i64, ValueError>(n)
        },
{
    lemma_representable_integer_is_kept(n as int);
}

/// Any integer converts to a float that no finite float is nearer to it
/// than: the two distances compare as fractions, each numerator times the
/// other denominator.
pub proof fn lemma_integer_widens_to_the_nearest(n: i64, other: Float32)
    requires
        other.is_finite(),
    ensures
        (Value::Integer { value: n }).as_float() matches Ok(f) && f.gap(n as int)
            * other.denominator() <= other.gap(n as int) * f.denominator(),
{
    lemma_from_int_is_nearest(n as int, other);
}

/// A float converts to an integer by rounding toward zero: the integer has
/// the sign of the float, or is zero, and strictly between the bounds of the
/// integer range its magnitude is the largest integer not above the
/// magnitude of the float. A float beyond a bound converts to that bound, an
/// infinity too, and a NaN converts to zero.
pub proof fn lemma_float_truncates_toward_zero(f: Float32)
    ensures
        (Value::Float { value: f }).as_integer() matches Ok(t) && {
            &&& f.is_nan() ==> t == 0
            &&& f.is_infinite() ==> t == (if f.is_negative() {
                i64::MIN
            } else {
                i64::MAX
            })
            &&& f.is_finite() ==> {
                &&& f.is_negative() ==> t <= 0
                &&& !f.is_negative() ==> t >= 0
                &&& i64::MIN < t < i64::MAX ==> magnitude(t as int) * f.denominator()
                    <= f.numerator() < (magnitude(t as int) + 1) * f.denominator()
                &&& t == i64::MAX ==> f.numerator() >= i64::MAX * f.denominator()
                &&& t == i64::MIN ==> f.numerator() >= 0x8000_0000_0000_0000 * f.denominator()
            }
        },
{
    if f.is_finite() {
        lemma_truncated_toward_zero(f);
    }
}

/// Negating a number twice gives the number back.
pub proof fn lemma_negation_is_an_involution(v: Value)
    requires
        v is Integer || v is Float,
    ensures
        v.negation() matches Ok(w) && w.negation() == Ok::<Value, ValueError>(v),
{
    if let Value::Float { value } = v {
        lemma_negated_twice(value);
    }
}

/// Logical not is the negated truthiness of any value, and of a boolean it
/// is the other boolean.
pub proof fn lemma_not_negates_truthiness(v: Value)
    ensures
        v.logical_not() == (Value::Boolean { value: !v.truthy() }),
        v matches Value::Boolean { value } ==> v.logical_not() == (Value::Boolean {
            value: !value,
        }),
        v.logical_not().truthy() == !v.truthy(),
{
}

/// Two instances are equal exactly when they name one class and hold equal
/// fields in one order; whether they are one shared instance or two plays no
/// part.
pub proof fn lemma_instances_are_equal_by_content(a: Rc<LoxObject>, b: Rc<LoxObject>)
    ensures
        Value::Object(a).equals(Value::Object(b)) <==> a.class_name@ == b.class_name@
            && same_fields(a.fields@, b.fields@),
{
}

/// Equality does not depend on the side a value stands on.
pub proof fn lemma_equality_is_symmetric(a: Value, b: Value)
    ensures
        a.equals(b) == b.equals(a),
    decreases a,
{
    match (a, b) {
        (Value::Method(_, x), Value::Method(_, y)) => {
            lemma_fields_equality_is_symmetric(x.fields@, y.fields@);
        },
        (Value::Object(x), Value::Object(y)) => {
            lemma_fields_equality_is_symmetric(x.fields@, y.fields@);
        },
        (Value::Array(x), Value::Array(y)) => {
            lemma_values_equality_is_symmetric(x.elements@, y.elements@);
        },
        _ => {},
    }
}

/// Equality of two lists of values does not depend on which list comes
/// first.
pub proof fn lemma_values_equality_is_symmetric(a: Seq<Value>, b: Seq<Value>)
    ensures
        same_values(a, b) == same_values(b, a),
    decreases a,
{
    if a.len() == b.len() {
        assert forall|i: int| 0 <= i < a.len() implies (#[trigger] a[i]).equals(b[i]) == b[i].equals(
            a[i],
        ) by {
            lemma_equality_is_symmetric(a[i], b[i]);
        }
    }
}

/// Equality of two lists of fields does not depend on which list comes
/// first.
pub proof fn lemma_fields_equality_is_symmetric(a: Seq<Field>, b: Seq<Field>)
    ensures
        same_fields(a, b) == same_fields(b, a),
    decreases a,
{
    if a.len() == b.len() {
        assert forall|i: int| 0 <= i < a.len() implies (#[trigger] a[i]).equals(b[i]) == b[i].equals(
            a[i],
        ) by {
            lemma_equality_is_symmetric(a[i].value, b[i].value);
        }
    }
}

} // verus!
