//! Binary64 arithmetic is not done here. A float is held as its bit pattern,
//! and every operation on floats is described as a `FloatTask` that the host
//! carries out. The host records each answer in a `FloatMemo` and calls again;
//! the functions of this library read the memo and never compute a float.
use vstd::prelude::*;

verus! {

/// The five binary operators of the language's arithmetic.
#[derive(Debug, Clone, Copy, PartialEq, Eq, Structural)]
pub enum ArithOp {
    Add,
    Subtract,
    Multiply,
    Divide,
    Power,
}

/// A numeric operand: an integer, or the bit pattern of a binary64 float.
#[derive(Debug, Clone, Copy, PartialEq, Eq, Structural)]
pub enum Number {
    Int(i64),
    Float(u64),
}

/// How two values stand to each other.
#[derive(Debug, Clone, Copy, PartialEq, Eq, Structural)]
pub enum Order {
    Less,
    Equal,
    Greater,
}

/// One piece of float work for the host.
#[derive(Debug, PartialEq, Eq)]
pub enum FloatTask {
    /// Read a number literal as a binary64 float.
    Parse(String),
    /// Negate the float with these bits.
    Negate(u64),
    /// Convert both operands to floats and apply the operator.
    Arith(ArithOp, Number, Number),
    /// Compare the float with the first bits to the one with the second.
    Compare(u64, u64),
    /// Write the float with these bits as text.
    Display(u64),
}

/// The host's answer to a `FloatTask`.
#[derive(Debug, PartialEq, Eq)]
pub enum FloatAnswer {
    /// The bits of the resulting float (`Parse`, `Negate`, `Arith`).
    Bits(u64),
    /// The outcome of `Compare`; `None` where the floats are unordered.
    Ordered(Option<Order>),
    /// The text of `Display`.
    Text(String),
    /// The literal of `Parse` is no number.
    Invalid,
}

/// A `FloatTask` with its text as a sequence of characters.
pub enum FloatTaskView {
    Parse(Seq<char>),
    Negate(u64),
    Arith(ArithOp, Number, Number),
    Compare(u64, u64),
    Display(u64),
}

/// A `FloatAnswer` with its text as a sequence of characters.
pub enum FloatAnswerView {
    Bits(u64),
    Ordered(Option<Order>),
    Text(Seq<char>),
    Invalid,
}

impl View for FloatTask {
    type V = FloatTaskView;

    open spec fn view(&self) -> FloatTaskView {
        match self {
            FloatTask::Parse(s) => FloatTaskView::Parse(s@),
            FloatTask::Negate(a) => FloatTaskView::Negate(*a),
            FloatTask::Arith(op, a, b) => FloatTaskView::Arith(*op, *a, *b),
            FloatTask::Compare(a, b) => FloatTaskView::Compare(*a, *b),
            FloatTask::Display(a) => FloatTaskView::Display(*a),
        }
    }
}

impl View for FloatAnswer {
    type V = FloatAnswerView;

    open spec fn view(&self) -> FloatAnswerView {
        match self {
            FloatAnswer::Bits(a) => FloatAnswerView::Bits(*a),
            FloatAnswer::Ordered(o) => FloatAnswerView::Ordered(*o),
            FloatAnswer::Text(s) => FloatAnswerView::Text(s@),
            FloatAnswer::Invalid => FloatAnswerView::Invalid,
        }
    }
}

impl FloatTask {
    /// Whether two tasks ask for the same work.
    pub fn same(&self, other: &FloatTask) -> (r: bool)
        ensures
            r == (self@ == other@),
    {
        match (self, other) {
            (FloatTask::Parse(a), FloatTask::Parse(b)) => *a == *b,
            (FloatTask::Negate(a), FloatTask::Negate(b)) => *a == *b,
            (FloatTask::Arith(op, a, b), FloatTask::Arith(op2, a2, b2)) => *op == *op2 && *a == *a2
                && *b == *b2,
            (FloatTask::Compare(a, b), FloatTask::Compare(a2, b2)) => *a == *a2 && *b == *b2,
            (FloatTask::Display(a), FloatTask::Display(b)) => *a == *b,
            _ => false,
        }
    }
}

impl Clone for FloatTask {
    fn clone(&self) -> (r: Self)
        ensures
            r == *self,
    {
        match self {
            FloatTask::Parse(s) => FloatTask::Parse(s.clone()),
            FloatTask::Negate(a) => FloatTask::Negate(*a),
            FloatTask::Arith(op, a, b) => FloatTask::Arith(*op, *a, *b),
            FloatTask::Compare(a, b) => FloatTask::Compare(*a, *b),
            FloatTask::Display(a) => FloatTask::Display(*a),
        }
    }
}

impl Clone for FloatAnswer {
    fn clone(&self) -> (r: Self)
        ensures
            r == *self,
    {
        match self {
            FloatAnswer::Bits(a) => FloatAnswer::Bits(*a),
            FloatAnswer::Ordered(o) => FloatAnswer::Ordered(*o),
            FloatAnswer::Text(s) => FloatAnswer::Text(s.clone()),
            FloatAnswer::Invalid => FloatAnswer::Invalid,
        }
    }
}

/// The answer that a sequence of records gives to a task: that of the first
/// record of the task, if there is one.
pub open spec fn lookup(
    entries: Seq<(FloatTaskView, FloatAnswerView)>,
    task: FloatTaskView,
) -> Option<FloatAnswerView>
    decreases entries.len(),
{
    if entries.len() == 0 {
        None
    } else if entries[0].0 == task {
        Some(entries[0].1)
    } else {
        lookup(entries.drop_first(), task)
    }
}

/// The float work that the host has done so far: tasks with their answers.
#[derive(Debug)]
pub struct FloatMemo {
    entries: Vec<(FloatTask, FloatAnswer)>,
}

impl View for FloatMemo {
    type V = Seq<(FloatTaskView, FloatAnswerView)>;

    closed spec fn view(&self) -> Seq<(FloatTaskView, FloatAnswerView)> {
        Seq::new(self.entries@.len(), |i: int| (self.entries@[i].0@, self.entries@[i].1@))
    }
}

impl FloatMemo {
    /// The answer recorded for a task, if there is one.
    pub open spec fn answer(&self, task: FloatTaskView) -> Option<FloatAnswerView> {
        lookup(self@, task)
    }

    /// A memo without records.
    pub fn new() -> (memo: FloatMemo)
        ensures
            memo@ == Seq::<(FloatTaskView, FloatAnswerView)>::empty(),
    {
        let memo = FloatMemo { entries: Vec::new() };
        assert(memo@ =~= Seq::<(FloatTaskView, FloatAnswerView)>::empty());
        memo
    }

    /// How many records the memo holds.
    pub fn len(&self) -> (n: usize)
        ensures
            n == self@.len(),
    {
        self.entries.len()
    }

    /// Adds a record after those already there: an earlier record of the same
    /// task keeps the word.
    pub fn record(&mut self, task: FloatTask, answer: FloatAnswer)
        ensures
            final(self)@ == old(self)@.push((task@, answer@)),
    {
        self.entries.push((task, answer));
        assert(self@ =~= old(self)@.push((task@, answer@)));
    }

    /// The answer recorded for a task, if there is one.
    pub fn find(&self, task: &FloatTask) -> (r: Option<&FloatAnswer>)
        ensures
            r is Some <==> self.answer(task@) is Some,
            r is Some ==> r->0@ == self.answer(task@)->0,
    {
        let mut i: usize = 0;
        assert(self@.skip(0) =~= self@);
        while i < self.entries.len()
            invariant
                i <= self.entries@.len(),
                self@.len() == self.entries@.len(),
                lookup(self@, task@) == lookup(self@.skip(i as int), task@),
            decreases self.entries@.len() - i,
        {
            let ghost rest = self@.skip(i as int);
            assert(rest[0] == self@[i as int]);
            assert(rest.drop_first() =~= self@.skip(i + 1));
            if self.entries[i].0.same(task) {
                return Some(&self.entries[i].1);
            }
            i += 1;
        }
        assert(self@.skip(i as int).len() == 0);
        None
    }
}

/// A record that is added does not change the answer to a task that already
/// has one, and answers a task that had none if it is that task's record.
pub proof fn lemma_lookup_push(
    entries: Seq<(FloatTaskView, FloatAnswerView)>,
    task: FloatTaskView,
    answer: FloatAnswerView,
    asked: FloatTaskView,
)
    ensures
        lookup(entries, asked) is Some ==> lookup(entries.push((task, answer)), asked) == lookup(
            entries,
            asked,
        ),
        lookup(entries, asked) is None && asked == task ==> lookup(
            entries.push((task, answer)),
            asked,
        ) == Some(answer),
        lookup(entries, asked) is None && asked != task ==> lookup(
            entries.push((task, answer)),
            asked,
        ) is None,
    decreases entries.len(),
{
    let pushed = entries.push((task, answer));
    if entries.len() == 0 {
        assert(pushed.drop_first() =~= entries);
        assert(pushed[0] == (task, answer));
    } else {
        assert(pushed[0] == entries[0]);
        assert(pushed.drop_first() =~= entries.drop_first().push((task, answer)));
        if entries[0].0 != asked {
            lemma_lookup_push(entries.drop_first(), task, answer, asked);
        }
    }
}

} // verus!
