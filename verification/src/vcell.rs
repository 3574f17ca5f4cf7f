//! The tagged value that flows through stack, heap and registers.
use crate::number::Number;
use vstd::prelude::*;

verus! {

/// The native procedures, by name.
#[derive(Clone, Copy, Debug, PartialEq, Eq, Structural)]
pub enum BuiltIn {
    Abs,
    Append,
    Car,
    Cdr,
    CharAlphabetic,
    CharCiEqual,
    CharCiGt,
    CharCiGtEq,
    CharCiLt,
    CharCiLtEq,
    CharDowncase,
    CharEqual,
    CharFoldcase,
    CharGt,
    CharGtEq,
    CharLowerCase,
    CharLt,
    CharLtEq,
    CharNumeric,
    CharToInteger,
    CharUpcase,
    CharUpperCase,
    CharWhitespace,
    Cons,
    DigitValue,
    Divide,
    Eq,
    Equal,
    Eqv,
    Even,
    Gt,
    GtEq,
    InexactExact,
    IntegerToChar,
    IsBoolean,
    IsChar,
    IsList,
    IsNull,
    IsNumber,
    IsPair,
    IsPort,
    IsProcedure,
    IsString,
    IsSymbol,
    IsVector,
    ListRef,
    ListTail,
    ListToString,
    ListToVector,
    Lt,
    LtEq,
    MakeString,
    MakeVector,
    Minus,
    Multiply,
    Negative,
    Not,
    NumEqual,
    Odd,
    Plus,
    Positive,
    Quotient,
    Remainder,
    Reverse,
    SetCar,
    SetCdr,
    String,
    StringAppend,
    StringCiEqual,
    StringCiGt,
    StringCiGtEq,
    StringCiLt,
    StringCiLtEq,
    StringCopy,
    StringDowncase,
    StringEqual,
    StringFill,
    StringFoldcase,
    StringGt,
    StringGtEq,
    StringLength,
    StringLt,
    StringLtEq,
    StringRef,
    StringSet,
    StringToList,
    StringToSymbol,
    StringToVector,
    StringUpcase,
    Substring,
    SymbolEqual,
    SymbolToString,
    Vector,
    VectorFill,
    VectorLength,
    VectorRef,
    VectorSet,
    VectorToList,
    VectorToString,
    Zero,
}

/// A value cell.
///
/// `Pair` holds the heap addresses of its two parts. `Vector`, `String`
/// and `Symbol` hold a handle: the place of the vector's slots, of the
/// string's characters or of the symbol's name in the heap's stores, so
/// that every copy of the cell shares them. `Ptr` is a heap address.
/// `Lambda` holds the handle of a compiled procedure, `Closure` that and
/// the handle of the vector of the values it has captured.
/// `Argc`, `InstructionPointer` and `BasePointer` live on the stack only.
#[derive(Clone, Copy, Debug, PartialEq, Eq, Structural)]
pub enum VCell {
    Argc(usize),
    BasePointer(usize),
    Bool(bool),
    BuiltIn(BuiltIn),
    Char(char),
    Closure(usize, usize),
    InstructionPointer(usize, usize),
    Lambda(usize),
    Nil,
    Number(Number),
    Pair(usize, usize),
    Ptr(usize),
    String(usize),
    Symbol(usize),
    Undefined,
    Vector(usize),
    Void,
}

impl VCell {
    /// The cell is a value, not a piece of a stack frame.
    pub open spec fn is_value(self) -> bool {
        !(self is Argc || self is BasePointer || self is InstructionPointer)
    }

    /// The cell can be stored in the heap: a value other than a pointer.
    pub open spec fn storable(self) -> bool {
        self.is_value() && !(self is Ptr)
    }

    pub fn value(self) -> (b: bool)
        ensures
            b == self.is_value(),
    {
        match self {
            VCell::Argc(_) | VCell::BasePointer(_) | VCell::InstructionPointer(_, _) => false,
            _ => true,
        }
    }

    pub fn is_nil(self) -> (b: bool)
        ensures
            b == (self is Nil),
    {
        match self {
            VCell::Nil => true,
            _ => false,
        }
    }

    pub fn is_pair(self) -> (b: bool)
        ensures
            b == (self is Pair),
    {
        match self {
            VCell::Pair(_, _) => true,
            _ => false,
        }
    }

    pub fn is_boolean(self) -> (b: bool)
        ensures
            b == (self is Bool),
    {
        match self {
            VCell::Bool(_) => true,
            _ => false,
        }
    }

    pub fn is_char(self) -> (b: bool)
        ensures
            b == (self is Char),
    {
        match self {
            VCell::Char(_) => true,
            _ => false,
        }
    }

    pub fn is_number(self) -> (b: bool)
        ensures
            b == (self is Number),
    {
        match self {
            VCell::Number(_) => true,
            _ => false,
        }
    }

    pub fn is_procedure(self) -> (b: bool)
        ensures
            b == (self is BuiltIn || self is Lambda || self is Closure),
    {
        match self {
            VCell::BuiltIn(_) | VCell::Lambda(_) | VCell::Closure(_, _) => true,
            _ => false,
        }
    }

    pub fn is_string(self) -> (b: bool)
        ensures
            b == (self is String),
    {
        match self {
            VCell::String(_) => true,
            _ => false,
        }
    }

    pub fn is_symbol(self) -> (b: bool)
        ensures
            b == (self is Symbol),
    {
        match self {
            VCell::Symbol(_) => true,
            _ => false,
        }
    }

    pub fn is_vector(self) -> (b: bool)
        ensures
            b == (self is Vector),
    {
        match self {
            VCell::Vector(_) => true,
            _ => false,
        }
    }
}

} // verus!
