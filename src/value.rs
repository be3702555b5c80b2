use vstd::prelude::*;

use crate::functions::{copy_function, function_view, LispFunction};
use crate::lisp_error::LispError;
use crate::lisp_expression::Expr;
use crate::semantics::{concat_lists, length_value};

verus! {

/// The functions that the interpreter provides under fixed names.
#[derive(Debug, Clone, Copy, PartialEq, Eq, Structural)]
pub enum BuiltIn {
    Add,
    Sub,
    Mul,
    Div,
    Equal,
    Less,
    LessEqual,
    Greater,
    GreaterEqual,
    MakeList,
    Car,
    Cdr,
    IsList,
    Length,
    ListRef,
    Append,
    MapList,
    FilterList,
    ReduceList,
}

/// A runtime value.
#[derive(Debug, PartialEq)]
pub enum LispOutput {
    Void,
    Integer(i64),
    Bool(bool),
    Lambda(LispFunction),
    List(Box<LispList>),
}

/// A proper list of values, built of cons cells.
#[derive(Debug, PartialEq)]
pub enum LispList {
    Cons(LispOutput, Box<LispList>),
    Nil,
}

/// Mathematical model of a value. A list is the sequence of its elements; a closure is its
/// parameter names, its body and the index of the frame it captured.
pub enum Val {
    Void,
    Int(i64),
    Bool(bool),
    Builtin(BuiltIn),
    Closure(Seq<Seq<char>>, Expr, nat),
    List(Seq<Val>),
}

pub open spec fn output_view(v: LispOutput) -> Val
    decreases v,
{
    match v {
        LispOutput::Void => Val::Void,
        LispOutput::Integer(n) => Val::Int(n),
        LispOutput::Bool(b) => Val::Bool(b),
        LispOutput::Lambda(f) => function_view(f),
        LispOutput::List(l) => Val::List(list_view(*l)),
    }
}

pub open spec fn list_view(l: LispList) -> Seq<Val>
    decreases l,
{
    match l {
        LispList::Nil => seq![],
        LispList::Cons(head, tail) => seq![output_view(head)] + list_view(*tail),
    }
}

impl View for LispOutput {
    type V = Val;

    open spec fn view(&self) -> Val {
        output_view(*self)
    }
}

impl View for LispList {
    type V = Seq<Val>;

    open spec fn view(&self) -> Seq<Val> {
        list_view(*self)
    }
}

/// The models of a sequence of values.
pub open spec fn outputs_view(vs: Seq<LispOutput>) -> Seq<Val> {
    vs.map_values(|v: LispOutput| v@)
}

/// The model of an evaluation result.
pub open spec fn result_view(r: Result<LispOutput, LispError>) -> Result<Val, LispError> {
    match r {
        Ok(v) => Ok(v@),
        Err(e) => Err(e),
    }
}

pub proof fn lemma_outputs_view_push(vs: Seq<LispOutput>, v: LispOutput)
    ensures
        outputs_view(vs.push(v)) == outputs_view(vs).push(v@),
{
    assert(outputs_view(vs.push(v)) =~= outputs_view(vs).push(v@));
}

/// Deep copy of a value.
pub fn copy_output(v: &LispOutput) -> (r: LispOutput)
    ensures
        r@ == v@,
    decreases v,
{
    match v {
        LispOutput::Void => LispOutput::Void,
        LispOutput::Integer(n) => LispOutput::Integer(*n),
        LispOutput::Bool(b) => LispOutput::Bool(*b),
        LispOutput::Lambda(f) => LispOutput::Lambda(copy_function(f)),
        LispOutput::List(l) => LispOutput::List(Box::new(copy_list(l))),
    }
}

/// Deep copy of a list.
pub fn copy_list(l: &LispList) -> (r: LispList)
    ensures
        r@ == l@,
    decreases l,
{
    match l {
        LispList::Nil => LispList::Nil,
        LispList::Cons(head, tail) => LispList::Cons(copy_output(head), Box::new(copy_list(tail))),
    }
}

/// The models of a sequence of lists, each as a list value.
pub open spec fn lists_view(ls: Seq<LispList>) -> Seq<Val> {
    ls.map_values(|l: LispList| Val::List(l@))
}

/// Moves the elements of `l`, in order, to the end of `out`.
pub(crate) fn drain_into(l: LispList, out: &mut Vec<LispOutput>)
    ensures
        outputs_view(final(out)@) == outputs_view(old(out)@) + l@,
{
    let mut cur = l;
    loop
        invariant
            outputs_view(out@) + cur@ == outputs_view(old(out)@) + l@,
        decreases cur@.len(),
    {
        match cur {
            LispList::Nil => {
                assert(outputs_view(out@) + cur@ =~= outputs_view(out@));
                return;
            },
            LispList::Cons(head, tail) => {
                let ghost before = outputs_view(out@);
                let ghost h = head@;
                proof {
                    lemma_outputs_view_push(out@, head);
                }
                out.push(head);
                assert(outputs_view(out@) + (*tail)@ =~= before + (seq![h] + (*tail)@));
                cur = *tail;
            },
        }
    }
}

impl LispList {
    /// The list of `args`, in order.
    pub fn build(args: Vec<LispOutput>) -> (r: LispList)
        ensures
            r@ == outputs_view(args@),
    {
        let ghost all = outputs_view(args@);
        let mut rest = args;
        let mut list = LispList::Nil;
        assert(all.skip(all.len() as int) =~= seq![]);
        while rest.len() > 0
            invariant
                rest.len() <= all.len(),
                outputs_view(rest@) == all.take(rest.len() as int),
                list@ == all.skip(rest.len() as int),
            decreases rest.len(),
        {
            let ghost n = rest.len() as int;
            match rest.pop() {
                Some(v) => {
                    assert(outputs_view(rest@.push(v)) == all.take(n));
                    assert(outputs_view(rest@.push(v))[n - 1] == v@);
                    assert(outputs_view(rest@) =~= all.take(n - 1));
                    list = LispList::Cons(v, Box::new(list));
                    assert(list@ =~= all.skip(n - 1));
                },
                None => {},
            }
        }
        assert(all.skip(0) =~= all);
        list
    }

    /// The first element; fails on the empty list.
    pub fn get_car(&self) -> (r: Result<LispOutput, LispError>)
        ensures
            self@.len() == 0 ==> r == Err::<LispOutput, LispError>(LispError::IndexOutOfBounds),
            self@.len() > 0 ==> r is Ok && r->Ok_0@ == self@[0],
    {
        match self {
            LispList::Cons(car, _) => Ok(copy_output(car)),
            LispList::Nil => Err(LispError::IndexOutOfBounds),
        }
    }

    /// The list after the first element; fails on the empty list.
    pub fn get_cdr(&self) -> (r: Result<LispOutput, LispError>)
        ensures
            self@.len() == 0 ==> r == Err::<LispOutput, LispError>(LispError::IndexOutOfBounds),
            self@.len() > 0 ==> r is Ok && r->Ok_0@ == Val::List(self@.skip(1)),
    {
        match self {
            LispList::Cons(_, cdr) => {
                let tail = copy_list(cdr);
                assert(self@.skip(1) =~= tail@);
                Ok(LispOutput::List(Box::new(tail)))
            },
            LispList::Nil => Err(LispError::IndexOutOfBounds),
        }
    }

    /// The number of elements, as an integer value.
    pub fn length(&self) -> (r: LispOutput)
        ensures
            r@ == Val::Int(length_value(self@.len())),
    {
        let mut cur: &LispList = self;
        let mut n: i64 = 0;
        loop
            invariant
                self@.len() == (n as nat) + cur@.len() || (n == i64::MAX && self@.len() > i64::MAX),
                n == length_value((self@.len() - cur@.len()) as nat),
                cur@.len() <= self@.len(),
            decreases cur@.len(),
        {
            match cur {
                LispList::Nil => {
                    return LispOutput::Integer(n);
                },
                LispList::Cons(_, cdr) => {
                    if n < i64::MAX {
                        n = n + 1;
                    }
                    cur = cdr;
                },
            }
        }
    }

    /// The element at `index`; fails when `index` is negative or not below the length.
    pub fn get(&self, index: i64) -> (r: Result<LispOutput, LispError>)
        ensures
            0 <= index < self@.len() ==> r is Ok && r->Ok_0@ == self@[index as int],
            !(0 <= index < self@.len()) ==> r == Err::<LispOutput, LispError>(
                LispError::IndexOutOfBounds,
            ),
    {
        if index < 0 {
            return Err(LispError::IndexOutOfBounds);
        }
        let mut cur: &LispList = self;
        let mut k: i64 = index;
        loop
            invariant
                0 <= k <= index,
                cur@ == self@.skip(index - k),
                index - k <= self@.len(),
            decreases k,
        {
            match cur {
                LispList::Nil => {
                    return Err(LispError::IndexOutOfBounds);
                },
                LispList::Cons(car, cdr) => {
                    assert(cur@ == seq![car@] + (**cdr)@);
                    assert(cur@[0] == self@[index - k]);
                    if k == 0 {
                        return Ok(copy_output(car));
                    }
                    assert(cur@.skip(1) =~= (**cdr)@);
                    assert(self@.skip(index - k + 1) =~= cur@.skip(1));
                    k = k - 1;
                    cur = cdr;
                },
            }
        }
    }

    /// The elements of all `lists`, one list after the other, in a fresh list.
    pub fn append(lists: Vec<LispList>) -> (r: LispList)
        ensures
            r@ == concat_lists(lists_view(lists@)),
    {
        let ghost lv = lists_view(lists@);
        let mut lists = lists;
        let mut all: Vec<LispOutput> = Vec::new();
        let mut i: usize = 0;
        assert(outputs_view(all@) =~= concat_lists(lv.take(0)));
        while i < lists.len()
            invariant
                i <= lists.len(),
                lists.len() == lv.len(),
                forall|j: int| i <= j < lists.len() ==> Val::List((#[trigger] lists@[j])@) == lv[j],
                outputs_view(all@) == concat_lists(lv.take(i as int)),
            decreases lists.len() - i,
        {
            let mut l = LispList::Nil;
            std::mem::swap(&mut lists[i], &mut l);
            assert(lv.take(i + 1).drop_last() =~= lv.take(i as int));
            assert(lv.take(i + 1).last() == Val::List(l@));
            drain_into(l, &mut all);
            i = i + 1;
        }
        assert(lv.take(i as int) =~= lv);
        LispList::build(all)
    }
}

} // verus!
