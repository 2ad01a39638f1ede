//! The operators of the language on values: arithmetic with its coercions,
//! order, and text. An operation on floats is answered from the memo of the
//! float work that the host has done; where the memo has no answer the
//! operation names the task and does nothing else.
use vstd::prelude::*;
use vstd::string::*;
use crate::float::{
    ArithOp, FloatAnswer, FloatAnswerView, FloatMemo, FloatTask, FloatTaskView, Number, Order,
    lookup,
};
use crate::text::{
    bool_text, bool_to_string, concat, decimal, int_to_string, order_texts, text_order,
};
use crate::value::{Value, ValueType, ValueView, VariableDefinition, VariableDefinitionView};

verus! {

/// What applying an operator gives: a value, a task for the host whose answer
/// the memo lacks, or the message of a runtime error.
#[derive(Debug, PartialEq)]
pub enum Evaluation {
    Done(Value),
    Float(FloatTask),
    Failed(String),
}

/// An `Evaluation` with its texts as sequences of characters.
pub enum EvaluationView {
    Done(ValueView),
    Float(FloatTaskView),
    Failed(Seq<char>),
}

impl View for Evaluation {
    type V = EvaluationView;

    open spec fn view(&self) -> EvaluationView {
        match self {
            Evaluation::Done(v) => EvaluationView::Done(v@),
            Evaluation::Float(t) => EvaluationView::Float(t@),
            Evaluation::Failed(m) => EvaluationView::Failed(m@),
        }
    }
}

/// The memo as the operators read it.
pub type Answers = Seq<(FloatTaskView, FloatAnswerView)>;

/// The name of a kind between double quotes.
pub open spec fn quoted(name: Seq<char>) -> Seq<char> {
    seq!['"'] + name + seq!['"']
}

/// The message for an operator that does not take the kinds of its operands.
pub open spec fn mismatch(verb: Seq<char>, a: ValueView, link: Seq<char>, b: ValueView) -> Seq<
    char,
> {
    verb + quoted(a.kind_name()) + link + quoted(b.kind_name())
}

impl ValueView {
    /// The value as a numeric operand, if it is a number.
    pub open spec fn number(self) -> Option<Number> {
        match self {
            ValueView::Float64(x) => Some(Number::Float(x)),
            ValueView::Int64(x) => Some(Number::Int(x)),
            ValueView::Int32(x) => Some(Number::Int(x as i64)),
            _ => None,
        }
    }

    /// Whether the value is a float.
    pub open spec fn is_float(self) -> bool {
        self is Float64
    }

    /// Whether `+` joins the value to a string as text: the numbers, the
    /// booleans and `Null` are such.
    pub open spec fn is_scalar(self) -> bool {
        self is Float64 || self is Int64 || self is Int32 || self is Bool || self is Null
    }

    /// The text of the value, or the task of writing it if it is a float whose
    /// text the memo lacks.
    pub open spec fn display(self, memo: Answers) -> Result<Seq<char>, FloatTaskView> {
        match self {
            ValueView::Float64(x) => match lookup(memo, FloatTaskView::Display(x)) {
                Some(FloatAnswerView::Text(t)) => Ok(t),
                _ => Err(FloatTaskView::Display(x)),
            },
            ValueView::Int64(x) => Ok(decimal(x as int)),
            ValueView::Int32(x) => Ok(decimal(x as int)),
            ValueView::Bool(b) => Ok(bool_text(b)),
            ValueView::Null => Ok("null"@),
            ValueView::String(s) => Ok(s),
            ValueView::VariableLookup(_) => Ok("VariableLookup"@),
            ValueView::VariableDefinition(_) => Ok("VariableDefinition"@),
        }
    }

    /// The place of the value's kind in the order of kinds.
    pub open spec fn rank(self) -> int {
        match self {
            ValueView::Float64(_) => 0,
            ValueView::Int64(_) => 1,
            ValueView::Int32(_) => 2,
            ValueView::String(_) => 3,
            ValueView::Bool(_) => 4,
            ValueView::Null => 5,
            ValueView::VariableDefinition(_) => 6,
            ValueView::VariableLookup(_) => 7,
        }
    }
}

/// The result of a float operation: the float whose bits the memo gives for
/// the task, or the task.
pub open spec fn float_result(memo: Answers, task: FloatTaskView) -> EvaluationView {
    match lookup(memo, task) {
        Some(FloatAnswerView::Bits(x)) => EvaluationView::Done(ValueView::Float64(x)),
        _ => EvaluationView::Float(task),
    }
}

/// A 32-bit result if the number fits, else the error of an overflow.
pub open spec fn int32_result(n: int, overflow: Seq<char>) -> EvaluationView {
    if i32::MIN <= n <= i32::MAX {
        EvaluationView::Done(ValueView::Int32(n as i32))
    } else {
        EvaluationView::Failed(overflow)
    }
}

/// A 64-bit result if the number fits, else the error of an overflow.
pub open spec fn int64_result(n: int, overflow: Seq<char>) -> EvaluationView {
    if i64::MIN <= n <= i64::MAX {
        EvaluationView::Done(ValueView::Int64(n as i64))
    } else {
        EvaluationView::Failed(overflow)
    }
}

/// The mathematical result of `+`, `-` or `*` on two integers.
pub open spec fn int_op(op: ArithOp, x: int, y: int) -> int {
    match op {
        ArithOp::Add => x + y,
        ArithOp::Subtract => x - y,
        _ => x * y,
    }
}

/// The message of an integer overflow in an operator.
pub open spec fn overflow_message(op: ArithOp) -> Seq<char> {
    match op {
        ArithOp::Add => "attempt to add with overflow"@,
        ArithOp::Subtract => "attempt to subtract with overflow"@,
        _ => "attempt to multiply with overflow"@,
    }
}

/// The message for operands that an arithmetic operator does not take.
pub open spec fn arith_mismatch(op: ArithOp, a: ValueView, b: ValueView) -> Seq<char> {
    match op {
        ArithOp::Add => mismatch("Cannot add "@, a, " and "@, b),
        ArithOp::Subtract => mismatch("Cannot subtract "@, a, " and "@, b),
        ArithOp::Multiply => mismatch("Cannot multiply "@, a, " and "@, b),
        ArithOp::Divide => mismatch("Cannot divide "@, a, " and "@, b),
        ArithOp::Power => mismatch("Cannot raise "@, a, " to the power of "@, b),
    }
}

/// An arithmetic operator on two numbers. Two integers of one width give that
/// width for `+`, `-` and `*`, and two of different widths give 64 bits; a
/// result that does not fit is an error. With a float among the operands, and
/// always for `/` and `^`, the result is the float that the host computes.
pub open spec fn numeric(op: ArithOp, a: ValueView, b: ValueView, memo: Answers) -> EvaluationView
    recommends
        a.number() is Some,
        b.number() is Some,
{
    if op == ArithOp::Divide || op == ArithOp::Power || a.is_float() || b.is_float() {
        float_result(memo, FloatTaskView::Arith(op, a.number()->0, b.number()->0))
    } else {
        match (a, b) {
            (ValueView::Int32(x), ValueView::Int32(y)) => int32_result(
                int_op(op, x as int, y as int),
                overflow_message(op),
            ),
            (ValueView::Int64(x), ValueView::Int64(y)) => int64_result(
                int_op(op, x as int, y as int),
                overflow_message(op),
            ),
            (ValueView::Int64(x), ValueView::Int32(y)) => int64_result(
                int_op(op, x as int, y as int),
                overflow_message(op),
            ),
            (ValueView::Int32(x), ValueView::Int64(y)) => int64_result(
                int_op(op, x as int, y as int),
                overflow_message(op),
            ),
            _ => EvaluationView::Failed(arith_mismatch(op, a, b)),
        }
    }
}

/// The two texts joined, or the task of writing the one that is a float
/// whose text the memo lacks: that of the left one first.
pub open spec fn joined(a: ValueView, b: ValueView, memo: Answers) -> EvaluationView {
    match a.display(memo) {
        Err(task) => EvaluationView::Float(task),
        Ok(left) => match b.display(memo) {
            Err(task) => EvaluationView::Float(task),
            Ok(right) => EvaluationView::Done(ValueView::String(left + right)),
        },
    }
}

/// `a op b`. Numbers are combined by `numeric`. `+` also joins a string to a
/// string, a number, a boolean or `Null`, on either side, as text. Every
/// other pair of operands is an error that names both kinds.
pub open spec fn arith(op: ArithOp, a: ValueView, b: ValueView, memo: Answers) -> EvaluationView {
    if a.number() is Some && b.number() is Some {
        numeric(op, a, b, memo)
    } else if op == ArithOp::Add && ((a is String && (b is String || b.is_scalar())) || (b is String
        && a.is_scalar())) {
        joined(a, b, memo)
    } else {
        EvaluationView::Failed(arith_mismatch(op, a, b))
    }
}

/// `-a`: the negated number, and an error for what is no number or for the
/// integer that has no negative.
pub open spec fn negated(a: ValueView, memo: Answers) -> EvaluationView {
    match a {
        ValueView::Float64(x) => float_result(memo, FloatTaskView::Negate(x)),
        ValueView::Int64(x) => int64_result(-(x as int), "attempt to negate with overflow"@),
        ValueView::Int32(x) => int32_result(-(x as int), "attempt to negate with overflow"@),
        _ => EvaluationView::Failed("Cannot negate "@ + quoted(a.kind_name())),
    }
}

/// The order of two integers.
pub open spec fn int_order(x: int, y: int) -> Order {
    if x < y {
        Order::Less
    } else if x == y {
        Order::Equal
    } else {
        Order::Greater
    }
}

/// The place of a type in the order of types.
pub open spec fn type_rank(t: ValueType) -> int {
    match t {
        ValueType::Float64 => 0,
        ValueType::Int64 => 1,
        ValueType::Int32 => 2,
        ValueType::String => 3,
        ValueType::Bool => 4,
        ValueType::Null => 5,
        ValueType::Dynamic => 6,
        ValueType::Empty => 7,
    }
}

/// The order of two declarations: by name, then by type, then by mutability.
pub open spec fn definition_order(a: VariableDefinitionView, b: VariableDefinitionView) -> Order {
    if text_order(a.name, b.name) != Order::Equal {
        text_order(a.name, b.name)
    } else if type_rank(a.value_type) != type_rank(b.value_type) {
        int_order(type_rank(a.value_type), type_rank(b.value_type))
    } else {
        int_order(if a.mutable { 1 } else { 0 }, if b.mutable { 1 } else { 0 })
    }
}

/// How two values stand to each other. Values of different kinds are ordered
/// by kind; two of one kind by what they hold: numbers by size, texts byte
/// by byte, `false` before `true`. Two floats are ordered by the host, which
/// may find them unordered (`None`).
pub open spec fn order(a: ValueView, b: ValueView, memo: Answers) -> Result<
    Option<Order>,
    FloatTaskView,
> {
    match (a, b) {
        (ValueView::Float64(x), ValueView::Float64(y)) => match lookup(
            memo,
            FloatTaskView::Compare(x, y),
        ) {
            Some(FloatAnswerView::Ordered(o)) => Ok(o),
            _ => Err(FloatTaskView::Compare(x, y)),
        },
        (ValueView::Int64(x), ValueView::Int64(y)) => Ok(Some(int_order(x as int, y as int))),
        (ValueView::Int32(x), ValueView::Int32(y)) => Ok(Some(int_order(x as int, y as int))),
        (ValueView::String(x), ValueView::String(y)) => Ok(Some(text_order(x, y))),
        (ValueView::Bool(x), ValueView::Bool(y)) => Ok(
            Some(int_order(if x { 1 } else { 0 }, if y { 1 } else { 0 })),
        ),
        (ValueView::Null, ValueView::Null) => Ok(Some(Order::Equal)),
        (ValueView::VariableDefinition(x), ValueView::VariableDefinition(y)) => Ok(
            Some(definition_order(x, y)),
        ),
        (ValueView::VariableLookup(x), ValueView::VariableLookup(y)) => Ok(Some(text_order(x, y))),
        _ => Ok(Some(int_order(a.rank(), b.rank()))),
    }
}

/// The six comparisons of the language.
#[derive(Debug, Clone, Copy, PartialEq, Eq, Structural)]
pub enum Comparison {
    EqualEqual,
    BangEqual,
    Greater,
    GreaterEqual,
    Less,
    LessEqual,
}

/// Whether a comparison holds of two values that stand in the given order;
/// of unordered values only `!=` holds.
pub open spec fn holds(comparison: Comparison, o: Option<Order>) -> bool {
    match comparison {
        Comparison::EqualEqual => o == Some(Order::Equal),
        Comparison::BangEqual => o != Some(Order::Equal),
        Comparison::Greater => o == Some(Order::Greater),
        Comparison::GreaterEqual => o == Some(Order::Greater) || o == Some(Order::Equal),
        Comparison::Less => o == Some(Order::Less),
        Comparison::LessEqual => o == Some(Order::Less) || o == Some(Order::Equal),
    }
}

/// `a comparison b`: a boolean, or the task of ordering two floats.
pub open spec fn compared(
    comparison: Comparison,
    a: ValueView,
    b: ValueView,
    memo: Answers,
) -> EvaluationView {
    match order(a, b, memo) {
        Ok(o) => EvaluationView::Done(ValueView::Bool(holds(comparison, o))),
        Err(task) => EvaluationView::Float(task),
    }
}

fn quote(name: &str) -> (s: String)
    ensures
        s@ == quoted(name@),
{
    proof {
        reveal_strlit("\"");
    }
    let mut s = String::from_str("\"");
    s.append(name);
    s.append("\"");
    assert(s@ =~= quoted(name@));
    s
}

fn mismatch_message(verb: &str, a: &Value, link: &str, b: &Value) -> (s: String)
    ensures
        s@ == mismatch(verb@, a@, link@, b@),
{
    let mut s = String::from_str(verb);
    let qa = quote(a.to_type_string().as_str());
    s.append(qa.as_str());
    s.append(link);
    let qb = quote(b.to_type_string().as_str());
    s.append(qb.as_str());
    s
}

fn arith_mismatch_message(op: ArithOp, a: &Value, b: &Value) -> (s: String)
    ensures
        s@ == arith_mismatch(op, a@, b@),
{
    match op {
        ArithOp::Add => mismatch_message("Cannot add ", a, " and ", b),
        ArithOp::Subtract => mismatch_message("Cannot subtract ", a, " and ", b),
        ArithOp::Multiply => mismatch_message("Cannot multiply ", a, " and ", b),
        ArithOp::Divide => mismatch_message("Cannot divide ", a, " and ", b),
        ArithOp::Power => mismatch_message("Cannot raise ", a, " to the power of ", b),
    }
}

fn overflow_text(op: ArithOp) -> (s: String)
    ensures
        s@ == overflow_message(op),
{
    match op {
        ArithOp::Add => String::from_str("attempt to add with overflow"),
        ArithOp::Subtract => String::from_str("attempt to subtract with overflow"),
        _ => String::from_str("attempt to multiply with overflow"),
    }
}

fn float_answer(memo: &FloatMemo, task: FloatTask) -> (r: Evaluation)
    ensures
        r@ == float_result(memo@, task@),
{
    match memo.find(&task) {
        Some(FloatAnswer::Bits(x)) => Evaluation::Done(Value::Float64(*x)),
        _ => Evaluation::Float(task),
    }
}

fn int_arith(op: ArithOp, x: i64, y: i64) -> (r: Option<i64>)
    requires
        op == ArithOp::Add || op == ArithOp::Subtract || op == ArithOp::Multiply,
    ensures
        r is Some <==> i64::MIN <= int_op(op, x as int, y as int) <= i64::MAX,
        r is Some ==> r->0 == int_op(op, x as int, y as int),
{
    match op {
        ArithOp::Add => x.checked_add(y),
        ArithOp::Subtract => x.checked_sub(y),
        _ => x.checked_mul(y),
    }
}

impl Value {
    /// The value as a numeric operand, if it is a number.
    pub fn to_number(&self) -> (n: Option<Number>)
        ensures
            n == self@.number(),
    {
        match self {
            Value::Float64(x) => Some(Number::Float(*x)),
            Value::Int64(x) => Some(Number::Int(*x)),
            Value::Int32(x) => Some(Number::Int(*x as i64)),
            _ => None,
        }
    }

    fn is_scalar(&self) -> (r: bool)
        ensures
            r == self@.is_scalar(),
    {
        match self {
            Value::Float64(_)
            | Value::Int64(_)
            | Value::Int32(_)
            | Value::Bool(_)
            | Value::Null => true,
            _ => false,
        }
    }

    /// The text of the value, as `print` and string interpolation write it.
    /// The text of a float is the host's: where the memo lacks it, the result
    /// is the task of writing it.
    pub fn to_string(&self, memo: &FloatMemo) -> (r: Result<String, FloatTask>)
        ensures
            r is Ok <==> self@.display(memo@) is Ok,
            r is Ok ==> r->Ok_0@ == self@.display(memo@)->Ok_0,
            r is Err ==> r->Err_0@ == self@.display(memo@)->Err_0,
    {
        match self {
            Value::Float64(x) => {
                let task = FloatTask::Display(*x);
                match memo.find(&task) {
                    Some(FloatAnswer::Text(t)) => Ok(t.clone()),
                    _ => Err(task),
                }
            },
            Value::Int64(x) => Ok(int_to_string(*x)),
            Value::Int32(x) => Ok(int_to_string(*x as i64)),
            Value::Bool(b) => Ok(bool_to_string(*b)),
            Value::Null => Ok(String::from_str("null")),
            Value::String(s) => Ok(s.clone()),
            Value::VariableLookup(_) => Ok(String::from_str("VariableLookup")),
            Value::VariableDefinition(_) => Ok(String::from_str("VariableDefinition")),
        }
    }

    /// The texts of two values, joined.
    pub fn join(&self, other: &Value, memo: &FloatMemo) -> (r: Evaluation)
        ensures
            r@ == joined(self@, other@, memo@),
    {
        match self.to_string(memo) {
            Err(task) => Evaluation::Float(task),
            Ok(left) => match other.to_string(memo) {
                Err(task) => Evaluation::Float(task),
                Ok(right) => Evaluation::Done(Value::String(concat(left.as_str(), right.as_str()))),
            },
        }
    }

    /// Applies an arithmetic operator to this value and another.
    pub fn arith(&self, op: ArithOp, other: &Value, memo: &FloatMemo) -> (r: Evaluation)
        ensures
            r@ == arith(op, self@, other@, memo@),
    {
        match (self.to_number(), other.to_number()) {
            (Some(x), Some(y)) => {
                let float = match (self, other) {
                    (Value::Float64(_), _) => true,
                    (_, Value::Float64(_)) => true,
                    _ => false,
                };
                if float || op == ArithOp::Divide || op == ArithOp::Power {
                    return float_answer(memo, FloatTask::Arith(op, x, y));
                }
                match (self, other) {
                    (Value::Int32(a), Value::Int32(b)) => {
                        match int_arith(op, *a as i64, *b as i64) {
                            Some(n) => if n >= i32::MIN as i64 && n <= i32::MAX as i64 {
                                Evaluation::Done(Value::Int32(n as i32))
                            } else {
                                Evaluation::Failed(overflow_text(op))
                            },
                            None => Evaluation::Failed(overflow_text(op)),
                        }
                    },
                    (Value::Int64(a), Value::Int64(b)) => match int_arith(op, *a, *b) {
                        Some(n) => Evaluation::Done(Value::Int64(n)),
                        None => Evaluation::Failed(overflow_text(op)),
                    },
                    (Value::Int64(a), Value::Int32(b)) => match int_arith(op, *a, *b as i64) {
                        Some(n) => Evaluation::Done(Value::Int64(n)),
                        None => Evaluation::Failed(overflow_text(op)),
                    },
                    (Value::Int32(a), Value::Int64(b)) => match int_arith(op, *a as i64, *b) {
                        Some(n) => Evaluation::Done(Value::Int64(n)),
                        None => Evaluation::Failed(overflow_text(op)),
                    },
                    _ => Evaluation::Failed(arith_mismatch_message(op, self, other)),
                }
            },
            _ => {
                let left_text = match self {
                    Value::String(_) => true,
                    _ => false,
                };
                let right_text = match other {
                    Value::String(_) => true,
                    _ => false,
                };
                if op == ArithOp::Add && ((left_text && (right_text || other.is_scalar())) || (
                right_text && self.is_scalar())) {
                    self.join(other, memo)
                } else {
                    Evaluation::Failed(arith_mismatch_message(op, self, other))
                }
            },
        }
    }

    /// `self + other`.
    pub fn add(&self, other: &Value, memo: &FloatMemo) -> (r: Evaluation)
        ensures
            r@ == arith(ArithOp::Add, self@, other@, memo@),
    {
        self.arith(ArithOp::Add, other, memo)
    }

    /// `self - other`.
    pub fn sub(&self, other: &Value, memo: &FloatMemo) -> (r: Evaluation)
        ensures
            r@ == arith(ArithOp::Subtract, self@, other@, memo@),
    {
        self.arith(ArithOp::Subtract, other, memo)
    }

    /// `self * other`.
    pub fn mul(&self, other: &Value, memo: &FloatMemo) -> (r: Evaluation)
        ensures
            r@ == arith(ArithOp::Multiply, self@, other@, memo@),
    {
        self.arith(ArithOp::Multiply, other, memo)
    }

    /// `self / other`: always a float.
    pub fn div(&self, other: &Value, memo: &FloatMemo) -> (r: Evaluation)
        ensures
            r@ == arith(ArithOp::Divide, self@, other@, memo@),
    {
        self.arith(ArithOp::Divide, other, memo)
    }

    /// `-self`.
    pub fn neg(&self, memo: &FloatMemo) -> (r: Evaluation)
        ensures
            r@ == negated(self@, memo@),
    {
        match self {
            Value::Float64(x) => float_answer(memo, FloatTask::Negate(*x)),
            Value::Int64(x) => match 0i64.checked_sub(*x) {
                Some(n) => Evaluation::Done(Value::Int64(n)),
                None => Evaluation::Failed(String::from_str("attempt to negate with overflow")),
            },
            Value::Int32(x) => match 0i32.checked_sub(*x) {
                Some(n) => Evaluation::Done(Value::Int32(n)),
                None => Evaluation::Failed(String::from_str("attempt to negate with overflow")),
            },
            _ => {
                let q = quote(self.to_type_string().as_str());
                Evaluation::Failed(concat("Cannot negate ", q.as_str()))
            },
        }
    }

    /// How this value stands to another, or the task of ordering two floats.
    pub fn order(&self, other: &Value, memo: &FloatMemo) -> (r: Result<Option<Order>, FloatTask>)
        ensures
            r is Ok <==> order(self@, other@, memo@) is Ok,
            r is Ok ==> r->Ok_0 == order(self@, other@, memo@)->Ok_0,
            r is Err ==> r->Err_0@ == order(self@, other@, memo@)->Err_0,
    {
        match (self, other) {
            (Value::Float64(x), Value::Float64(y)) => {
                let task = FloatTask::Compare(*x, *y);
                match memo.find(&task) {
                    Some(FloatAnswer::Ordered(o)) => Ok(*o),
                    _ => Err(task),
                }
            },
            (Value::Int64(x), Value::Int64(y)) => Ok(Some(order_ints(*x, *y))),
            (Value::Int32(x), Value::Int32(y)) => Ok(Some(order_ints(*x as i64, *y as i64))),
            (Value::String(x), Value::String(y)) => Ok(Some(order_texts(x.as_str(), y.as_str()))),
            (Value::Bool(x), Value::Bool(y)) => Ok(
                Some(order_ints(if *x { 1 } else { 0 }, if *y { 1 } else { 0 })),
            ),
            (Value::Null, Value::Null) => Ok(Some(Order::Equal)),
            (Value::VariableDefinition(x), Value::VariableDefinition(y)) => Ok(
                Some(order_definitions(x, y)),
            ),
            (Value::VariableLookup(x), Value::VariableLookup(y)) => Ok(
                Some(order_texts(x.as_str(), y.as_str())),
            ),
            _ => Ok(Some(order_ints(self.rank(), other.rank()))),
        }
    }

    fn rank(&self) -> (r: i64)
        ensures
            r == self@.rank(),
    {
        match self {
            Value::Float64(_) => 0,
            Value::Int64(_) => 1,
            Value::Int32(_) => 2,
            Value::String(_) => 3,
            Value::Bool(_) => 4,
            Value::Null => 5,
            Value::VariableDefinition(_) => 6,
            Value::VariableLookup(_) => 7,
        }
    }

    /// Whether a comparison holds of this value and another.
    pub fn compare(&self, comparison: Comparison, other: &Value, memo: &FloatMemo) -> (r:
        Evaluation)
        ensures
            r@ == compared(comparison, self@, other@, memo@),
    {
        match self.order(other, memo) {
            Ok(o) => Evaluation::Done(Value::Bool(order_holds(comparison, o))),
            Err(task) => Evaluation::Float(task),
        }
    }
}

/// Raising to a power.
pub trait Pow: Sized {
    /// `self ^ exp`.
    fn pow(&self, exp: &Self, memo: &FloatMemo) -> Evaluation;
}

impl Pow for Value {
    /// `self ^ exp`: always a float.
    fn pow(&self, exp: &Value, memo: &FloatMemo) -> (r: Evaluation)
        ensures
            r@ == arith(ArithOp::Power, self@, exp@, memo@),
    {
        self.arith(ArithOp::Power, exp, memo)
    }
}

/// Orders two integers.
pub fn order_ints(x: i64, y: i64) -> (r: Order)
    ensures
        r == int_order(x as int, y as int),
{
    if x < y {
        Order::Less
    } else if x == y {
        Order::Equal
    } else {
        Order::Greater
    }
}

fn rank_of_type(t: ValueType) -> (r: i64)
    ensures
        r == type_rank(t),
{
    match t {
        ValueType::Float64 => 0,
        ValueType::Int64 => 1,
        ValueType::Int32 => 2,
        ValueType::String => 3,
        ValueType::Bool => 4,
        ValueType::Null => 5,
        ValueType::Dynamic => 6,
        ValueType::Empty => 7,
    }
}

/// Orders two declarations.
pub fn order_definitions(a: &VariableDefinition, b: &VariableDefinition) -> (r: Order)
    ensures
        r == definition_order(a@, b@),
{
    let name_a = a.get_name();
    let name_b = b.get_name();
    let by_name = order_texts(name_a.as_str(), name_b.as_str());
    if by_name != Order::Equal {
        return by_name;
    }
    let ta = rank_of_type(a.get_value_type());
    let tb = rank_of_type(b.get_value_type());
    if ta != tb {
        return order_ints(ta, tb);
    }
    order_ints(if a.is_mutable() { 1 } else { 0 }, if b.is_mutable() { 1 } else { 0 })
}

/// Whether a comparison holds of two values that stand in the given order.
pub fn order_holds(comparison: Comparison, o: Option<Order>) -> (r: bool)
    ensures
        r == holds(comparison, o),
{
    match comparison {
        Comparison::EqualEqual => o == Some(Order::Equal),
        Comparison::BangEqual => o != Some(Order::Equal),
        Comparison::Greater => o == Some(Order::Greater),
        Comparison::GreaterEqual => o == Some(Order::Greater) || o == Some(Order::Equal),
        Comparison::Less => o == Some(Order::Less),
        Comparison::LessEqual => o == Some(Order::Less) || o == Some(Order::Equal),
    }
}

/// The integer that an integer value holds.
pub open spec fn integer_of(v: ValueView) -> int
    recommends
        v is Int32 || v is Int64,
{
    match v {
        ValueView::Int32(x) => x as int,
        ValueView::Int64(x) => x as int,
        _ => 0,
    }
}

/// `+`, `-` and `*` on two integers of 32 bits give the integer of 32 bits
/// that is the sum, the difference or the product, where it fits in 32
/// bits, and the error of an overflow where it does not.
pub proof fn lemma_arith_int32(op: ArithOp, a: i32, b: i32, memo: Answers)
    requires
        op == ArithOp::Add || op == ArithOp::Subtract || op == ArithOp::Multiply,
    ensures
        arith(op, ValueView::Int32(a), ValueView::Int32(b), memo) == int32_result(
            int_op(op, a as int, b as int),
            overflow_message(op),
        ),
{
}

/// `+`, `-` and `*` on two integers of which at least one has 64 bits give
/// an integer of 64 bits, where the result fits, and the error of an
/// overflow where it does not.
pub proof fn lemma_arith_int64(op: ArithOp, a: ValueView, b: ValueView, memo: Answers)
    requires
        op == ArithOp::Add || op == ArithOp::Subtract || op == ArithOp::Multiply,
        a is Int32 || a is Int64,
        b is Int32 || b is Int64,
        a is Int64 || b is Int64,
    ensures
        arith(op, a, b, memo) == int64_result(
            int_op(op, integer_of(a), integer_of(b)),
            overflow_message(op),
        ),
{
}

/// With a float among two numbers every operator gives a float, and `/` and
/// `^` give a float for any two numbers, two integers too: the result is
/// the float that the memo holds for the operation, and until the memo holds
/// it, the task of computing it. No such operation gives an integer or an
/// error.
pub proof fn lemma_arith_float(op: ArithOp, a: ValueView, b: ValueView, memo: Answers)
    requires
        a.number() is Some,
        b.number() is Some,
        a is Float64 || b is Float64 || op == ArithOp::Divide || op == ArithOp::Power,
    ensures
        arith(op, a, b, memo) == float_result(
            memo,
            FloatTaskView::Arith(op, a.number()->0, b.number()->0),
        ),
        arith(op, a, b, memo) is Done ==> arith(op, a, b, memo)->Done_0 is Float64,
        !(arith(op, a, b, memo) is Failed),
{
}

/// `+` joins a string and an integer to the string followed by the decimal
/// text of the integer, and an integer and a string likewise.
pub proof fn lemma_add_string_and_integer(s: Seq<char>, n: ValueView, memo: Answers)
    requires
        n is Int32 || n is Int64,
    ensures
        arith(ArithOp::Add, ValueView::String(s), n, memo) == EvaluationView::Done(
            ValueView::String(s + decimal(integer_of(n))),
        ),
        arith(ArithOp::Add, n, ValueView::String(s), memo) == EvaluationView::Done(
            ValueView::String(decimal(integer_of(n)) + s),
        ),
{
}

/// `+` joins two strings, and a string with `Null` or a boolean: `Null` is
/// written `null`.
pub proof fn lemma_add_strings(s: Seq<char>, t: Seq<char>, b: bool, memo: Answers)
    ensures
        arith(ArithOp::Add, ValueView::String(s), ValueView::String(t), memo)
            == EvaluationView::Done(ValueView::String(s + t)),
        arith(ArithOp::Add, ValueView::String(s), ValueView::Null, memo) == EvaluationView::Done(
            ValueView::String(s + "null"@),
        ),
        arith(ArithOp::Add, ValueView::Null, ValueView::String(s), memo) == EvaluationView::Done(
            ValueView::String("null"@ + s),
        ),
        arith(ArithOp::Add, ValueView::String(s), ValueView::Bool(b), memo)
            == EvaluationView::Done(ValueView::String(s + bool_text(b))),
{
}

/// An operator on operands that it does not take is an error that names
/// both kinds, whatever the memo holds: `-`, `*`, `/` and `^` take numbers
/// only.
pub proof fn lemma_arith_mismatch(op: ArithOp, a: ValueView, b: ValueView, memo: Answers)
    requires
        op != ArithOp::Add,
        a.number() is None || b.number() is None,
    ensures
        arith(op, a, b, memo) == EvaluationView::Failed(arith_mismatch(op, a, b)),
{
}

/// A comparison of two values of which not both are floats is decided
/// without the host, and `==` and `!=` say the opposite of each other.
pub proof fn lemma_compared(a: ValueView, b: ValueView, memo: Answers)
    requires
        !(a is Float64 && b is Float64),
    ensures
        compared(Comparison::EqualEqual, a, b, memo) is Done,
        compared(Comparison::EqualEqual, a, b, memo)->Done_0 == ValueView::Bool(
            order(a, b, memo)->Ok_0 == Some(Order::Equal),
        ),
        compared(Comparison::BangEqual, a, b, memo)->Done_0 == ValueView::Bool(
            order(a, b, memo)->Ok_0 != Some(Order::Equal),
        ),
{
}

} // verus!
