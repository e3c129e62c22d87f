//! The text of a value, for printing and for messages.
//!
//! Everything but a float is written out here. A float is handed on as it
//! is, in its place in the text, for the caller to write its digits.

use crate::descriptor::LoxFunction;
use crate::float::Float32;
use crate::text::format_integer;
use crate::text::integer_text;
use crate::value::Value;
use vstd::prelude::*;

verus! {

/// A stretch of a value's text: characters, or a float that stands where its
/// digits belong.
#[derive(Clone, Debug)]
pub enum Segment {
    Text(String),
    Float(Float32),
}

/// What a segment holds, with the text as a sequence of characters.
pub enum Run {
    Text(Seq<char>),
    Float(Float32),
}

impl View for Segment {
    type V = Run;

    open spec fn view(&self) -> Run {
        match self {
            Segment::Text(text) => Run::Text(text@),
            Segment::Float(value) => Run::Float(*value),
        }
    }
}

/// The runs that a sequence of segments holds, in order.
pub open spec fn runs(segments: Seq<Segment>) -> Seq<Run> {
    segments.map_values(|segment: Segment| segment@)
}

/// The form a function is shown in: its name between `<fn ` and `>`.
pub open spec fn function_text(function: LoxFunction) -> Seq<char> {
    "<fn "@ + function.name@ + ">"@
}

/// The text of each element in order, each followed by a comma and a space.
pub open spec fn elements_rendering(elements: Seq<Value>) -> Seq<Run>
    decreases elements,
{
    if elements.len() == 0 {
        Seq::empty()
    } else {
        elements_rendering(elements.drop_last()) + elements.last().rendering() + seq![
            Run::Text(", "@),
        ]
    }
}

impl Value {
    /// The text of the value, as a sequence of runs.
    ///
    /// A number is written in decimal, a boolean as `true` or `false`, a
    /// string as its content without quotes. `Nil`, `Uninitialized` and a
    /// module each have a fixed token. A class and a trait are written as
    /// their names, an instance as the name of its class and ` instance`. An
    /// array is `[ `, its elements, and `]`.
    pub open spec fn rendering(self) -> Seq<Run>
        decreases self,
    {
        match self {
            Value::Float { value } => seq![Run::Float(value)],
            Value::Integer { value } => seq![Run::Text(integer_text(value as int))],
            Value::String { value } => seq![Run::Text(value@)],
            Value::Boolean { value } => seq![
                Run::Text(
                    if value {
                        "true"@
                    } else {
                        "false"@
                    },
                ),
            ],
            Value::Uninitialized => seq![Run::Text("Uninitialized"@)],
            Value::Nil => seq![Run::Text("Nil"@)],
            Value::Function(function) => seq![Run::Text(function_text(*function))],
            Value::Class(class) => seq![Run::Text(class.name@)],
            Value::Object(object) => seq![Run::Text(object.class_name@ + " instance"@)],
            Value::Method(function, object) => seq![
                Run::Text("Method "@ + function_text(*function) + " of "@ + object.class_name@),
            ],
            Value::Trait(lox_trait) => seq![Run::Text(lox_trait.name@)],
            Value::Array(array) => seq![Run::Text("[ "@)] + elements_rendering(array.elements@)
                + seq![Run::Text("]"@)],
            Value::Module(_) => seq![Run::Text("[Module]"@)],
        }
    }

    /// Renders the value.
    pub fn render(&self) -> (segments: Vec<Segment>)
        ensures
            runs(segments@) == self.rendering(),
    {
        let mut segments = Vec::new();
        self.render_into(&mut segments);
        assert(runs(Seq::<Segment>::empty()) =~= Seq::<Run>::empty());
        assert(Seq::<Run>::empty() + self.rendering() =~= self.rendering());
        segments
    }

    /// Appends the rendering of the value to `out`.
    pub fn render_into(&self, out: &mut Vec<Segment>)
        ensures
            runs(final(out)@) == runs(old(out)@) + self.rendering(),
        decreases self,
    {
        match self {
            Value::Float { value } => {
                push_segment(out, Segment::Float(*value));
            },
            Value::Array(array) => {
                push_segment(out, Segment::Text(String::from_str("[ ")));
                let ghost before = runs(out@);
                let mut i: usize = 0;
                while i < array.elements.len()
                    invariant
                        i <= array.elements.len(),
                        decreases_to!(self => array.elements),
                        runs(out@) == before + elements_rendering(
                            array.elements@.take(i as int),
                        ),
                    decreases array.elements.len() - i,
                {
                    proof {
                        broadcast use vstd::std_specs::vec::axiom_vec_index_decreases;

                        assert(decreases_to!(array.elements => array.elements[i as int]));
                        let longer = array.elements@.take(i + 1);
                        assert(longer.drop_last() =~= array.elements@.take(i as int));
                        assert(longer.last() == array.elements@[i as int]);
                    }
                    array.elements[i].render_into(out);
                    push_segment(out, Segment::Text(String::from_str(", ")));
                    i = i + 1;
                }
                assert(array.elements@.take(i as int) =~= array.elements@);
                push_segment(out, Segment::Text(String::from_str("]")));
                assert(runs(out@) =~= runs(old(out)@) + self.rendering());
            },
            _ => {
                let text = self.scalar_text();
                push_segment(out, Segment::Text(text));
            },
        }
    }

    /// The text of a value that is neither a float nor an array.
    fn scalar_text(&self) -> (text: String)
        requires
            !(*self is Float),
            !(*self is Array),
        ensures
            self.rendering() == seq![Run::Text(text@)],
    {
        match self {
            Value::Integer { value } => format_integer(*value),
            Value::String { value } => value.clone(),
            Value::Boolean { value } => {
                if *value {
                    String::from_str("true")
                } else {
                    String::from_str("false")
                }
            },
            Value::Uninitialized => String::from_str("Uninitialized"),
            Value::Nil => String::from_str("Nil"),
            Value::Function(function) => format_function(function),
            Value::Class(class) => class.name.clone(),
            Value::Object(object) => {
                let mut text = object.class_name.clone();
                text.append(" instance");
                text
            },
            Value::Method(function, object) => {
                let mut text = String::from_str("Method ");
                text.append(format_function(function).as_str());
                text.append(" of ");
                text.append(object.class_name.as_str());
                text
            },
            Value::Trait(lox_trait) => lox_trait.name.clone(),
            _ => String::from_str("[Module]"),
        }
    }
}

/// The elements of an array are rendered one after the other: the rendering
/// of two runs of elements joined is their two renderings joined, and that of
/// one element is its own rendering and the separator.
pub proof fn lemma_elements_are_rendered_in_order(front: Seq<Value>, back: Seq<Value>, one: Value)
    ensures
        elements_rendering(front + back) == elements_rendering(front) + elements_rendering(back),
        elements_rendering(seq![one]) == one.rendering() + seq![Run::Text(", "@)],
    decreases back.len(),
{
    let single = seq![one];
    assert(single.drop_last() =~= Seq::<Value>::empty());
    assert(elements_rendering(single.drop_last()) =~= Seq::<Run>::empty());
    assert(single.last() == one);
    assert(elements_rendering(single) =~= one.rendering() + seq![Run::Text(", "@)]);
    if back.len() == 0 {
        assert(front + back =~= front);
        assert(elements_rendering(front) + elements_rendering(back) =~= elements_rendering(
            front,
        ));
    } else {
        lemma_elements_are_rendered_in_order(front, back.drop_last(), one);
        assert((front + back).drop_last() =~= front + back.drop_last());
        assert((front + back).last() == back.last());
        assert(elements_rendering(front + back) =~= elements_rendering(front)
            + elements_rendering(back));
    }
}

/// Writes a function in the form it is shown in.
fn format_function(function: &LoxFunction) -> (text: String)
    ensures
        text@ == function_text(*function),
{
    let mut text = String::from_str("<fn ");
    text.append(function.name.as_str());
    text.append(">");
    text
}

/// Appends one segment.
fn push_segment(out: &mut Vec<Segment>, segment: Segment)
    ensures
        final(out)@ == old(out)@.push(segment),
        runs(final(out)@) == runs(old(out)@) + seq![segment@],
{
    out.push(segment);
    assert(runs(out@) =~= runs(old(out)@) + seq![segment@]);
}

} // verus!
