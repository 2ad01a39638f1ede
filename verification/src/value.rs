//! The runtime values of the language and the metadata of its variables.
use vstd::prelude::*;

verus! {

/// The type of a value, as a declaration names it or as the machine infers it.
#[derive(Debug, Clone, Copy, PartialEq, Eq, Structural)]
pub enum ValueType {
    Float64,
    Int64,
    Int32,
    String,
    Bool,
    Null,
    Dynamic,
    Empty,
}

/// What a declaration says of a variable: its name, its declared type and
/// whether it may be assigned again.
#[derive(Debug, PartialEq)]
pub struct VariableDefinition {
    name: String,
    value_type: ValueType,
    mutable: bool,
}

/// A `VariableDefinition` with its name as a sequence of characters.
pub struct VariableDefinitionView {
    pub name: Seq<char>,
    pub value_type: ValueType,
    pub mutable: bool,
}

impl View for VariableDefinition {
    type V = VariableDefinitionView;

    closed spec fn view(&self) -> VariableDefinitionView {
        VariableDefinitionView {
            name: self.name@,
            value_type: self.value_type,
            mutable: self.mutable,
        }
    }
}

impl Clone for VariableDefinition {
    fn clone(&self) -> (r: Self)
        ensures
            r == *self,
    {
        VariableDefinition {
            name: self.name.clone(),
            value_type: self.value_type,
            mutable: self.mutable,
        }
    }
}

impl VariableDefinition {
    pub fn new(name: String, value_type: ValueType, mutable: bool) -> (r: Self)
        ensures
            r@ == (VariableDefinitionView { name: name@, value_type, mutable }),
    {
        Self { name, value_type, mutable }
    }

    pub fn get_name(&self) -> (name: String)
        ensures
            name@ == self@.name,
    {
        self.name.clone()
    }

    pub fn get_value_type(&self) -> (value_type: ValueType)
        ensures
            value_type == self@.value_type,
    {
        self.value_type
    }

    pub fn is_mutable(&self) -> (mutable: bool)
        ensures
            mutable == self@.mutable,
    {
        self.mutable
    }
}

/// A runtime value. A float is held as the bit pattern of a binary64 number.
/// `VariableDefinition` and `VariableLookup` only carry a declaration or a
/// name from the constant pool to the instructions that work on globals.
#[derive(Debug, PartialEq)]
pub enum Value {
    Float64(u64),
    Int64(i64),
    Int32(i32),
    String(String),
    Bool(bool),
    Null,
    VariableDefinition(VariableDefinition),
    VariableLookup(String),
}

/// A `Value` with its texts as sequences of characters.
pub enum ValueView {
    Float64(u64),
    Int64(i64),
    Int32(i32),
    String(Seq<char>),
    Bool(bool),
    Null,
    VariableDefinition(VariableDefinitionView),
    VariableLookup(Seq<char>),
}

impl View for Value {
    type V = ValueView;

    open spec fn view(&self) -> ValueView {
        match self {
            Value::Float64(a) => ValueView::Float64(*a),
            Value::Int64(a) => ValueView::Int64(*a),
            Value::Int32(a) => ValueView::Int32(*a),
            Value::String(a) => ValueView::String(a@),
            Value::Bool(a) => ValueView::Bool(*a),
            Value::Null => ValueView::Null,
            Value::VariableDefinition(a) => ValueView::VariableDefinition(a@),
            Value::VariableLookup(a) => ValueView::VariableLookup(a@),
        }
    }
}

impl Clone for Value {
    fn clone(&self) -> (r: Self)
        ensures
            r == *self,
    {
        match self {
            Value::Float64(a) => Value::Float64(*a),
            Value::Int64(a) => Value::Int64(*a),
            Value::Int32(a) => Value::Int32(*a),
            Value::String(a) => Value::String(a.clone()),
            Value::Bool(a) => Value::Bool(*a),
            Value::Null => Value::Null,
            Value::VariableDefinition(a) => Value::VariableDefinition(a.clone()),
            Value::VariableLookup(a) => Value::VariableLookup(a.clone()),
        }
    }
}

/// The views of a sequence of values, in order.
pub open spec fn views(values: Seq<Value>) -> Seq<ValueView> {
    values.map_values(|v: Value| v@)
}

impl ValueView {
    /// The name of the value's kind, as error messages write it.
    pub open spec fn kind_name(self) -> Seq<char> {
        match self {
            ValueView::Float64(_) => "Float64"@,
            ValueView::Int64(_) => "Int64"@,
            ValueView::Int32(_) => "Int32"@,
            ValueView::Bool(_) => "Bool"@,
            ValueView::Null => "Null"@,
            ValueView::String(_) => "String"@,
            ValueView::VariableLookup(_) => "VariableLookup"@,
            ValueView::VariableDefinition(_) => "VariableDefinition"@,
        }
    }

    /// Falsey are `Null` and `Bool(false)`, and nothing else.
    pub open spec fn is_falsey(self) -> bool {
        self == ValueView::Null || self == ValueView::Bool(false)
    }

    /// The type that the machine infers for the value.
    pub open spec fn value_type(self) -> ValueType {
        match self {
            ValueView::Float64(_) => ValueType::Float64,
            ValueView::Int64(_) => ValueType::Int64,
            ValueView::Int32(_) => ValueType::Int32,
            ValueView::Bool(_) => ValueType::Bool,
            ValueView::Null => ValueType::Null,
            ValueView::String(_) => ValueType::String,
            ValueView::VariableLookup(_) => ValueType::Dynamic,
            ValueView::VariableDefinition(_) => ValueType::Dynamic,
        }
    }
}

impl Value {
    pub fn to_type_string(&self) -> (name: String)
        ensures
            name@ == self@.kind_name(),
    {
        match self {
            Value::Float64(_) => "Float64".to_string(),
            Value::Int64(_) => "Int64".to_string(),
            Value::Int32(_) => "Int32".to_string(),
            Value::Bool(_) => "Bool".to_string(),
            Value::Null => "Null".to_string(),
            Value::String(_) => "String".to_string(),
            Value::VariableLookup(_) => "VariableLookup".to_string(),
            Value::VariableDefinition(_) => "VariableDefinition".to_string(),
        }
    }

    pub fn is_falsey(&self) -> (falsey: bool)
        ensures
            falsey == self@.is_falsey(),
    {
        match self {
            Value::Null => true,
            Value::Bool(b) => !*b,
            _ => false,
        }
    }

    pub fn to_value_type(&self) -> (value_type: ValueType)
        ensures
            value_type == self@.value_type(),
    {
        match self {
            Value::Float64(_) => ValueType::Float64,
            Value::Int64(_) => ValueType::Int64,
            Value::Int32(_) => ValueType::Int32,
            Value::Bool(_) => ValueType::Bool,
            Value::Null => ValueType::Null,
            Value::String(_) => ValueType::String,
            Value::VariableLookup(_) => ValueType::Dynamic,
            Value::VariableDefinition(_) => ValueType::Dynamic,
        }
    }
}

/// A global variable: its value with its name, its inferred type and whether
/// it may be assigned again.
#[derive(Debug, PartialEq)]
pub struct Variable {
    name: String,
    value: Value,
    value_type: ValueType,
    mutable: bool,
}

/// A `Variable` with its texts as sequences of characters.
pub struct VariableView {
    pub name: Seq<char>,
    pub value: ValueView,
    pub value_type: ValueType,
    pub mutable: bool,
}

impl View for Variable {
    type V = VariableView;

    closed spec fn view(&self) -> VariableView {
        VariableView {
            name: self.name@,
            value: self.value@,
            value_type: self.value_type,
            mutable: self.mutable,
        }
    }
}

impl Clone for Variable {
    fn clone(&self) -> (r: Self)
        ensures
            r == *self,
    {
        Variable {
            name: self.name.clone(),
            value: self.value.clone(),
            value_type: self.value_type,
            mutable: self.mutable,
        }
    }
}

impl Variable {
    pub fn new(name: String, value: Value, value_type: ValueType, mutable: bool) -> (r: Self)
        ensures
            r@ == (VariableView { name: name@, value: value@, value_type, mutable }),
    {
        Self { name, value, value_type, mutable }
    }

    pub fn get_name(&self) -> (name: String)
        ensures
            name@ == self@.name,
    {
        self.name.clone()
    }

    pub fn get_value_type(&self) -> (value_type: ValueType)
        ensures
            value_type == self@.value_type,
    {
        self.value_type
    }

    pub fn get_value(&self) -> (value: Value)
        ensures
            value@ == self@.value,
    {
        self.value.clone()
    }

    pub fn is_mutable(&self) -> (mutable: bool)
        ensures
            mutable == self@.mutable,
    {
        self.mutable
    }

    /// Stores the value if the variable is mutable, and says whether it did.
    pub fn set_value(&mut self, value: Value) -> (stored: bool)
        ensures
            stored == old(self)@.mutable,
            stored ==> final(self)@ == (VariableView { value: value@, ..old(self)@ }),
            !stored ==> final(self)@ == old(self)@,
    {
        if self.mutable {
            self.value = value;
            true
        } else {
            false
        }
    }
}

/// A growable list of values: the constant pool of a chunk.
#[derive(Debug)]
pub struct ValueArray {
    values: Vec<Value>,
}

impl View for ValueArray {
    type V = Seq<ValueView>;

    closed spec fn view(&self) -> Seq<ValueView> {
        views(self.values@)
    }
}

impl ValueArray {
    pub fn new() -> (r: Self)
        ensures
            r@ == Seq::<ValueView>::empty(),
    {
        let r = Self { values: Vec::new() };
        assert(r@ =~= Seq::<ValueView>::empty());
        r
    }

    /// How many values the list holds.
    pub fn len(&self) -> (n: usize)
        ensures
            n == self@.len(),
    {
        self.values.len()
    }

    /// Appends a value and returns its index.
    pub fn write(&mut self, value: Value) -> (index: usize)
        ensures
            index == old(self)@.len(),
            final(self)@ == old(self)@.push(value@),
    {
        let count = self.values.len();
        self.values.push(value);
        assert(self@ =~= old(self)@.push(value@));
        count
    }

    pub fn free(&mut self)
        ensures
            final(self)@ == Seq::<ValueView>::empty(),
    {
        self.values.clear();
        assert(self@ =~= Seq::<ValueView>::empty());
    }

    /// A copy of the value at an index.
    pub fn read(&self, index: usize) -> (value: Value)
        requires
            index < self@.len(),
        ensures
            value@ == self@[index as int],
    {
        self.values[index].clone()
    }
}

} // verus!
