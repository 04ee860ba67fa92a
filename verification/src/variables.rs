//! The variables of a program: scalar slots and associative arrays, and the
//! two forms in which the evaluator is handed them.

use vstd::prelude::*;
use vstd::string::*;

use crate::ast::{
    array_get, array_set, array_text, assign, distinct_keys, entry_text, eval, eval_var,
    expr_view, Expression, ExprView, StoreView, VarView,
};
use crate::errors::{Error, ErrorView, RuntimeError, unit_result_view};
use crate::file::{eval_result_view, file_view, FileState};
use crate::text::i64_to_string;
use crate::types::{Value, ValueView};

verus! {

/// A Variable can be a scalar, an array, or not yet known before analysis.
#[derive(Debug)]
pub enum Variable {
    /// A NotYetKnown variable is made by the compiler and replaced by
    /// analysis. To meet one when the program runs is an error.
    NotYetKnown(String),
    Scalar(Identifier),
    Arr(usize),
    ArrSub(ArraySubscript),
}

#[derive(Copy, Clone, Debug)]
pub struct Identifier {
    /// Index into the scalar slots.
    pub id: usize,
}

#[derive(Debug)]
pub struct ArraySubscript {
    pub id: usize,
    pub subscript: Box<Expression>,
}

impl Variable {
    pub fn evaluate(&self, f: Option<&FileState>, vars: &VariableState) -> (r: Result<
        Value,
        Error,
    >)
        ensures
            eval_result_view(r) == eval_var(self@, file_view(f), vars@),
        decreases self, 3nat,
    {
        vars.get_variable(f, self)
    }
}

/// The variables are handed to the evaluator in one of two forms. `Locked`
/// is the store at rest, as its owner holds it. `Unlocked` is a view of the
/// same store that is borrowed for as long as one statement takes: the
/// right-hand side of an assignment and every subscript are evaluated
/// through it.
pub enum VariableState<'a> {
    Locked(LockedVars),
    Unlocked(UnlockedVars<'a>),
}

impl<'a> View for VariableState<'a> {
    type V = StoreView;

    open spec fn view(&self) -> StoreView {
        match self {
            VariableState::Locked(l) => l@,
            VariableState::Unlocked(u) => u@,
        }
    }
}

pub open spec fn zeros(n: nat) -> Seq<int> {
    Seq::new(n, |i: int| 0int)
}

pub open spec fn empty_arrays(n: nat) -> Seq<Seq<(ValueView, int)>> {
    Seq::new(n, |i: int| Seq::<(ValueView, int)>::empty())
}

impl<'a> VariableState<'a> {
    /// A store of `num_scalars` slots, all zero, and `num_arrays` arrays,
    /// all empty.
    pub fn new(num_scalars: usize, num_arrays: usize) -> (r: Self)
        ensures
            r is Locked,
            r@.scalars == zeros(num_scalars as nat),
            r@.arrays == empty_arrays(num_arrays as nat),
            r.well_formed(),
    {
        VariableState::Locked(LockedVars::new(num_scalars, num_arrays))
    }

    /// No array holds a key twice.
    pub open spec fn well_formed(&self) -> bool {
        store_well_formed(self@)
    }

    /// Get the value of a variable `var`, within the context of the given `FileState`.
    pub fn get_variable(&self, f: Option<&FileState>, var: &Variable) -> (r: Result<Value, Error>)
        ensures
            eval_result_view(r) == eval_var(var@, file_view(f), self@),
        decreases var, 2nat,
    {
        match self {
            VariableState::Locked(l) => l.get_variable(f, var),
            VariableState::Unlocked(u) => u.get_variable(f, var),
        }
    }

    /// Assigns the value of `expr` to `assignee`. Only the store at rest can
    /// be assigned to.
    pub fn set_variable_expression(
        &mut self,
        assignee: &Variable,
        f: Option<&FileState>,
        expr: &Expression,
    ) -> (r: Result<(), Error>)
        ensures
            (*old(self) is Locked) ==> (final(self)@, unit_result_view(r)) == assign(
                assignee@,
                expr@,
                file_view(f),
                old(self)@,
            ),
            (*old(self) is Locked) ==> (*final(self) is Locked),
            old(self).well_formed() ==> final(self).well_formed(),
            (*old(self) is Unlocked) ==> *final(self) == *old(self) && unit_result_view(r) == Err::<
                (),
                ErrorView,
            >(ErrorView::Runtime(crate::errors::msg_assign_unlocked())),
    {
        proof {
            if self.well_formed() {
                assign_keeps_keys_distinct(assignee@, expr@, file_view(f), self@);
            }
        }
        match self {
            VariableState::Locked(l) => l.set_variable_expression(assignee, f, expr),
            VariableState::Unlocked(_) => Err(
                Error::Runtime(
                    RuntimeError::new("Cannot assign through a borrowed view of the variables"),
                ),
            ),
        }
    }
}

#[derive(Clone, Copy)]
pub struct UnlockedVars<'a> {
    scalars: &'a Vec<i64>,
    arrays: &'a Arrays,
}

pub open spec fn ints(s: Seq<i64>) -> Seq<int> {
    s.map_values(|i: i64| i as int)
}

impl<'a> View for UnlockedVars<'a> {
    type V = StoreView;

    closed spec fn view(&self) -> StoreView {
        StoreView { scalars: ints(self.scalars@), arrays: self.arrays@ }
    }
}

fn unresolved() -> (r: Error)
    ensures
        r@ == ErrorView::Runtime(crate::errors::msg_unresolved()),
{
    Error::Runtime(RuntimeError::new("Attempted to use an unresolved variable"))
}

impl<'a> UnlockedVars<'a> {
    fn get_variable(&self, f: Option<&FileState>, var: &Variable) -> (r: Result<Value, Error>)
        ensures
            eval_result_view(r) == eval_var(var@, file_view(f), self@),
        decreases var, 1nat,
    {
        match var {
            Variable::NotYetKnown(_) => Err(unresolved()),
            Variable::Scalar(id) => {
                if id.id < self.scalars.len() {
                    Ok(Value::Int(self.scalars[id.id]))
                } else {
                    Err(unresolved())
                }
            },
            Variable::Arr(id) => {
                if *id < self.arrays.len() {
                    Ok(Value::String(self.arrays.array_to_string(*id)))
                } else {
                    Err(unresolved())
                }
            },
            Variable::ArrSub(arr) => {
                if arr.id < self.arrays.len() {
                    self.arrays.get_variable(f, &VariableState::Unlocked(*self), arr)
                } else {
                    Err(unresolved())
                }
            },
        }
    }
}

pub struct LockedVars {
    /// The values of the scalar variables, by slot.
    scalars: Vec<i64>,
    arrays: Arrays,
}

impl View for LockedVars {
    type V = StoreView;

    closed spec fn view(&self) -> StoreView {
        StoreView { scalars: ints(self.scalars@), arrays: self.arrays@ }
    }
}

impl LockedVars {
    pub fn new(num_scalars: usize, num_arrs: usize) -> (r: Self)
        ensures
            r@.scalars == zeros(num_scalars as nat),
            r@.arrays == empty_arrays(num_arrs as nat),
    {
        let mut scalars: Vec<i64> = Vec::new();
        let mut i: usize = 0;
        while i < num_scalars
            invariant
                i <= num_scalars,
                scalars@.len() == i,
                forall|j: int| 0 <= j < i ==> scalars@[j] == 0,
            decreases num_scalars - i,
        {
            scalars.push(0);
            i = i + 1;
        }
        assert(ints(scalars@) =~= zeros(num_scalars as nat));
        LockedVars { scalars, arrays: Arrays::new(num_arrs) }
    }

    /// A view of the store for as long as it is borrowed.
    pub fn unlocked(&self) -> (r: UnlockedVars<'_>)
        ensures
            r@ == self@,
    {
        UnlockedVars { scalars: &self.scalars, arrays: &self.arrays }
    }

    fn get_variable(&self, f: Option<&FileState>, var: &Variable) -> (r: Result<Value, Error>)
        ensures
            eval_result_view(r) == eval_var(var@, file_view(f), self@),
        decreases var, 1nat,
    {
        match var {
            Variable::NotYetKnown(_) => Err(unresolved()),
            Variable::Scalar(id) => {
                if id.id < self.scalars.len() {
                    Ok(Value::Int(self.scalars[id.id]))
                } else {
                    Err(unresolved())
                }
            },
            Variable::Arr(id) => {
                if *id < self.arrays.len() {
                    Ok(Value::String(self.arrays.array_to_string(*id)))
                } else {
                    Err(unresolved())
                }
            },
            Variable::ArrSub(arr) => {
                if arr.id < self.arrays.len() {
                    let unlocked = self.unlocked();
                    self.arrays.get_variable(f, &VariableState::Unlocked(unlocked), arr)
                } else {
                    Err(unresolved())
                }
            },
        }
    }

    fn set_variable_expression(
        &mut self,
        assignee: &Variable,
        f: Option<&FileState>,
        expr: &Expression,
    ) -> (r: Result<(), Error>)
        ensures
            (final(self)@, unit_result_view(r)) == assign(
                assignee@,
                expr@,
                file_view(f),
                old(self)@,
            ),
    {
        let new = {
            let unlocked = self.unlocked();
            expr.evaluate(f, &VariableState::Unlocked(unlocked))?
        };
        match assignee {
            Variable::NotYetKnown(_) => Err(unresolved()),
            Variable::Scalar(id) => {
                if id.id < self.scalars.len() {
                    match new.to_signed_int() {
                        Ok(i) => {
                            self.scalars.set(id.id, i);
                            assert(ints(self.scalars@) =~= ints(old(self).scalars@).update(
                                id.id as int,
                                i as int,
                            ));
                            Ok(())
                        },
                        Err(e) => Err(Error::Runtime(e)),
                    }
                } else {
                    Err(unresolved())
                }
            },
            Variable::ArrSub(arr) => {
                if arr.id < self.arrays.len() {
                    let subscript = {
                        let unlocked = self.unlocked();
                        arr.subscript.evaluate(f, &VariableState::Unlocked(unlocked))?
                    };
                    match new.to_signed_int() {
                        Ok(i) => {
                            self.arrays.set_variable(arr.id, subscript, i);
                            Ok(())
                        },
                        Err(e) => Err(Error::Runtime(e)),
                    }
                } else {
                    Err(unresolved())
                }
            },
            Variable::Arr(_) => Err(
                Error::Runtime(RuntimeError::new("Cannot assign to an array name")),
            ),
        }
    }
}

pub struct Arrays {
    arrs: Vec<Vec<(Value, i64)>>,
}

pub open spec fn entries_view(s: Seq<(Value, i64)>) -> Seq<(ValueView, int)> {
    s.map_values(|e: (Value, i64)| (e.0@, e.1 as int))
}

impl View for Arrays {
    type V = Seq<Seq<(ValueView, int)>>;

    closed spec fn view(&self) -> Seq<Seq<(ValueView, int)>> {
        self.arrs@.map_values(|a: Vec<(Value, i64)>| entries_view(a@))
    }
}

pub proof fn lemma_array_get_found(a: Seq<(ValueView, int)>, k: ValueView, i: int)
    requires
        0 <= i < a.len(),
        a[i].0 == k,
        forall|j: int| 0 <= j < i ==> (#[trigger] a[j]).0 != k,
    ensures
        array_get(a, k) == a[i].1,
    decreases i,
{
    if i > 0 {
        let rest = a.drop_first();
        assert forall|j: int| 0 <= j < i - 1 implies (#[trigger] rest[j]).0 != k by {
            assert(rest[j] == a[j + 1]);
        }
        lemma_array_get_found(rest, k, i - 1);
    }
}

pub proof fn lemma_array_set_found(a: Seq<(ValueView, int)>, k: ValueView, v: int, i: int)
    requires
        0 <= i < a.len(),
        a[i].0 == k,
        forall|j: int| 0 <= j < i ==> (#[trigger] a[j]).0 != k,
    ensures
        array_set(a, k, v) == a.update(i, (k, v)),
    decreases i,
{
    if i > 0 {
        let rest = a.drop_first();
        assert forall|j: int| 0 <= j < i - 1 implies (#[trigger] rest[j]).0 != k by {
            assert(rest[j] == a[j + 1]);
        }
        lemma_array_set_found(rest, k, v, i - 1);
        assert(seq![a[0]] + rest.update(i - 1, (k, v)) == a.update(i, (k, v)));
    } else {
        assert(seq![(k, v)] + a.drop_first() == a.update(0, (k, v)));
    }
}

pub proof fn lemma_array_missing(a: Seq<(ValueView, int)>, k: ValueView, v: int)
    requires
        forall|j: int| 0 <= j < a.len() ==> (#[trigger] a[j]).0 != k,
    ensures
        array_get(a, k) == 0,
        array_set(a, k, v) == a.push((k, v)),
    decreases a.len(),
{
    if a.len() > 0 {
        let rest = a.drop_first();
        assert forall|j: int| 0 <= j < rest.len() implies (#[trigger] rest[j]).0 != k by {
            assert(rest[j] == a[j + 1]);
        }
        lemma_array_missing(rest, k, v);
        assert(seq![a[0]] + rest.push((k, v)) == a.push((k, v)));
    } else {
        assert(seq![(k, v)] == a.push((k, v)));
    }
}

/// An assignment to an array that holds no key twice leaves it so.
pub proof fn lemma_array_set_distinct(a: Seq<(ValueView, int)>, k: ValueView, v: int)
    requires
        distinct_keys(a),
    ensures
        distinct_keys(array_set(a, k, v)),
{
    if exists|i: int| 0 <= i < a.len() && (#[trigger] a[i]).0 == k {
        let i = choose|i: int| 0 <= i < a.len() && (#[trigger] a[i]).0 == k;
        lemma_array_set_found(a, k, v, i);
    } else {
        lemma_array_missing(a, k, v);
    }
}

pub open spec fn store_well_formed(s: StoreView) -> bool {
    forall|i: int| 0 <= i < s.arrays.len() ==> distinct_keys(#[trigger] s.arrays[i])
}

/// An assignment to a store in which no array holds a key twice leaves it so.
pub proof fn assign_keeps_keys_distinct(
    lhs: VarView,
    rhs: ExprView,
    f: Option<crate::file::FileView>,
    s: StoreView,
)
    requires
        store_well_formed(s),
    ensures
        store_well_formed(assign(lhs, rhs, f, s).0),
{
    let after = assign(lhs, rhs, f, s).0;
    if after != s {
        match lhs {
            VarView::ArrSub(id, sub) => {
                let k = eval(*sub, f, s)->Ok_0;
                let i = crate::types::to_integer(eval(rhs, f, s)->Ok_0)->Ok_0;
                lemma_array_set_distinct(s.arrays[id], k, i);
            },
            _ => {},
        }
    }
}

impl Arrays {
    fn new(num_arrays: usize) -> (r: Self)
        ensures
            r@ == empty_arrays(num_arrays as nat),
    {
        let mut arrs: Vec<Vec<(Value, i64)>> = Vec::new();
        let mut i: usize = 0;
        while i < num_arrays
            invariant
                i <= num_arrays,
                arrs@.len() == i,
                forall|j: int| 0 <= j < i ==> (#[trigger] arrs@[j])@.len() == 0,
            decreases num_arrays - i,
        {
            arrs.push(Vec::new());
            i = i + 1;
        }
        let r = Arrays { arrs };
        assert(r@ =~= empty_arrays(num_arrays as nat)) by {
            assert forall|j: int| 0 <= j < num_arrays implies #[trigger] r@[j] == Seq::<
                (ValueView, int),
            >::empty() by {
                assert(entries_view(r.arrs@[j]@) =~= Seq::<(ValueView, int)>::empty());
            }
        }
        r
    }

    fn len(&self) -> (r: usize)
        ensures
            r == self@.len(),
    {
        self.arrs.len()
    }

    /// The text of the array `id`: its entries in the order in which their
    /// keys were first assigned.
    fn array_to_string(&self, id: usize) -> (r: String)
        requires
            id < self@.len(),
        ensures
            r@ == array_text(self@[id as int]),
    {
        let entries = &self.arrs[id];
        let ghost a = entries_view(entries@);
        let mut s = String::new();
        let mut i: usize = 0;
        while i < entries.len()
            invariant
                i <= entries.len(),
                a == entries_view(entries@),
                s@ == array_text(a.subrange(0, i as int)),
            decreases entries.len() - i,
        {
            let ghost before = s@;
            if i > 0 {
                s.push('\n');
            }
            let key = entries[i].0.to_text();
            s.append(key.as_str());
            s.push(':');
            s.push(' ');
            let val = i64_to_string(entries[i].1);
            s.append(val.as_str());
            proof {
                let next = a.subrange(0, i + 1);
                assert(next.drop_last() == a.subrange(0, i as int));
                assert(next.last() == a[i as int]);
                assert(a[i as int] == (entries@[i as int].0@, entries@[i as int].1 as int));
                assert(entry_text(a[i as int]) =~= key@ + seq![':', ' '] + val@);
                if i > 0 {
                    assert(s@ =~= before + seq!['\n'] + entry_text(a[i as int]));
                } else {
                    assert(s@ =~= entry_text(a[i as int]));
                }
            }
            i = i + 1;
        }
        assert(a.subrange(0, i as int) == a);
        s
    }

    /// Gets a value from an associative array by evaluating the subscript
    /// and looking up the entry for that value.
    ///
    /// If there is no entry for that value, the result is 0.
    fn get_variable(&self, f: Option<&FileState>, s: &VariableState, arr: &ArraySubscript) -> (r:
        Result<Value, Error>)
        requires
            arr.id < self@.len(),
            s@.arrays == self@,
        ensures
            eval_result_view(r) == eval_var(
                VarView::ArrSub(arr.id as int, Box::new(expr_view(*arr.subscript))),
                file_view(f),
                s@,
            ),
        decreases arr, 0nat,
    {
        let key = arr.subscript.evaluate(f, s)?;
        let entries = &self.arrs[arr.id];
        let ghost a = entries_view(entries@);
        assert(a == self@[arr.id as int]);
        let mut i: usize = 0;
        while i < entries.len()
            invariant
                i <= entries.len(),
                a == entries_view(entries@),
                a == s@.arrays[arr.id as int],
                arr.id < s@.arrays.len(),
                eval(expr_view(*arr.subscript), file_view(f), s@) == Ok::<ValueView, ErrorView>(
                    key@,
                ),
                forall|j: int| 0 <= j < i ==> (#[trigger] a[j]).0 != key@,
            decreases entries.len() - i,
        {
            if entries[i].0.same(&key) {
                proof {
                    assert(a[i as int] == (entries@[i as int].0@, entries@[i as int].1 as int));
                    lemma_array_get_found(a, key@, i as int);
                }
                return Ok(Value::Int(entries[i].1));
            }
            i = i + 1;
        }
        proof {
            lemma_array_missing(a, key@, 0);
        }
        Ok(Value::Int(0))
    }

    /// Sets a value in an associative array.
    fn set_variable(&mut self, id: usize, subscript: Value, new: i64)
        requires
            id < old(self)@.len(),
        ensures
            final(self)@ == old(self)@.update(
                id as int,
                array_set(old(self)@[id as int], subscript@, new as int),
            ),
    {
        let ghost a = self@[id as int];
        let n = self.arrs[id].len();
        let mut i: usize = 0;
        while i < n
            invariant
                i <= n,
                id < self.arrs@.len(),
                n == self.arrs@[id as int]@.len(),
                *self == *old(self),
                a == entries_view(self.arrs@[id as int]@),
                forall|j: int| 0 <= j < i ==> (#[trigger] a[j]).0 != subscript@,
            decreases n - i,
        {
            if self.arrs[id][i].0.same(&subscript) {
                proof {
                    lemma_array_set_found(a, subscript@, new as int, i as int);
                }
                let mut entries = Vec::new();
                std::mem::swap(&mut entries, &mut self.arrs[id]);
                entries.set(i, (subscript, new));
                self.arrs.set(id, entries);
                assert(entries_view(self.arrs@[id as int]@) =~= a.update(
                    i as int,
                    (subscript@, new as int),
                ));
                assert(self@ =~= old(self)@.update(
                    id as int,
                    array_set(a, subscript@, new as int),
                ));
                return ;
            }
            i = i + 1;
        }
        proof {
            lemma_array_missing(a, subscript@, new as int);
        }
        let mut entries = Vec::new();
        std::mem::swap(&mut entries, &mut self.arrs[id]);
        entries.push((subscript, new));
        self.arrs.set(id, entries);
        assert(entries_view(self.arrs@[id as int]@) =~= a.push((subscript@, new as int)));
        assert(self@ =~= old(self)@.update(id as int, array_set(a, subscript@, new as int)));
    }
}

} // verus!
