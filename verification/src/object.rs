use vstd::prelude::*;
use vstd::string::*;

verus! {

/// The mathematical model of a literal value: each text payload is seen as a
/// sequence of characters.
pub enum SpecObject {
    Num(Seq<char>),
    Str(Seq<char>),
    True,
    False,
    Nil,
}

/// The model of an optional literal value.
pub open spec fn opt_obj_view(l: Option<Object>) -> Option<SpecObject> {
    match l {
        Some(o) => Some(o@),
        None => None,
    }
}

/// A literal scalar value, carried by a token or by a literal tree node:
/// a number, a string, one of the two booleans, or nil.
///
/// A number is kept in its canonical decimal form (no leading zeros before
/// the decimal point except a single `0`, no trailing zeros after it, and no
/// decimal point at all for a whole number), which is also its display form.
#[derive(Debug)]
pub enum Object {
    Num(String),
    Str(String),
    True,
    False,
    Nil,
}

impl View for Object {
    type V = SpecObject;

    open spec fn view(&self) -> SpecObject {
        match self {
            Object::Num(s) => SpecObject::Num(s@),
            Object::Str(s) => SpecObject::Str(s@),
            Object::True => SpecObject::True,
            Object::False => SpecObject::False,
            Object::Nil => SpecObject::Nil,
        }
    }
}

/// The canonical display form of a literal value: numbers print as their
/// decimal text, strings print quoted, booleans print as `true`/`false`,
/// nil prints as `nil`.
pub open spec fn obj_display(o: SpecObject) -> Seq<char> {
    match o {
        SpecObject::Num(s) => s,
        SpecObject::Str(s) => "\""@ + s + "\""@,
        SpecObject::True => "true"@,
        SpecObject::False => "false"@,
        SpecObject::Nil => "nil"@,
    }
}

impl Object {
    /// Renders this literal in its canonical display form.
    pub fn display(&self) -> (s: String)
        ensures
            s@ == obj_display(self@),
    {
        match self {
            Object::Num(n) => n.clone(),
            Object::Str(t) => String::from_str("\"").concat(t.as_str()).concat("\""),
            Object::True => String::from_str("true"),
            Object::False => String::from_str("false"),
            Object::Nil => String::from_str("nil"),
        }
    }
}

impl Clone for Object {
    /// A clone carries the same model as the original.
    fn clone(&self) -> (o: Object)
        ensures
            o@ == self@,
    {
        match self {
            Object::Num(s) => Object::Num(s.clone()),
            Object::Str(s) => Object::Str(s.clone()),
            Object::True => Object::True,
            Object::False => Object::False,
            Object::Nil => Object::Nil,
        }
    }
}

} // verus!
