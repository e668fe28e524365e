//! Tree-walking evaluation over one flat, mutable environment.
//!
//! The meaning of a program is stated as specification functions over views:
//! an expression gives a value and a new environment or an error, a
//! statement gives an [`Outcome`]. The executable functions walk the tree
//! and are proved to compute exactly that meaning. What a program prints is
//! appended to a text sink that the caller hands in.
use vstd::prelude::*;
use vstd::string::*;
use vstd::utf8::*;
use vstd::std_specs::cmp::PartialEqSpecImpl;
use crate::ast::{
    declaration_views, lemma_block_view, source_element_views, statement_views, BinaryOperator,
    Declaration, DeclarationView, ExpAssignData, ExpBinaryData, ExpCondData, ExpUnaryData,
    Expression, ExpressionView, Program, ProgramView, SourceElement, SourceElementView, StIfData,
    StWhileData, Statement, StatementView, UnaryOperator,
};
use crate::decimal::{decimal, lemma_decimal_is_ascii, push_decimal};
use crate::text::{lemma_ascii_is_valid_utf8, string_of_valid_utf8};
use crate::types::{
    kind_name, Guarded, JsishError, JsishErrorView, JsishResult, TypeMismatch, ValueKind,
};

verus! {

/// A runtime value.
#[derive(Debug)]
pub enum Value {
    NumValue(i64),
    StringValue(String),
    BoolValue(bool),
    UndefinedValue,
}

/// A runtime value as a mathematical value.
pub enum ValueView {
    Num(i64),
    Str(Seq<char>),
    Bool(bool),
    Undefined,
}

impl View for Value {
    type V = ValueView;

    open spec fn view(&self) -> ValueView {
        match self {
            Value::NumValue(n) => ValueView::Num(*n),
            Value::StringValue(s) => ValueView::Str(s@),
            Value::BoolValue(b) => ValueView::Bool(*b),
            Value::UndefinedValue => ValueView::Undefined,
        }
    }
}

impl Clone for Value {
    /// A copy of the value.
    fn clone(&self) -> (res: Value)
        ensures
            res@ == self@,
    {
        match self {
            Value::NumValue(n) => Value::NumValue(*n),
            Value::StringValue(s) => Value::StringValue(s.clone()),
            Value::BoolValue(b) => Value::BoolValue(*b),
            Value::UndefinedValue => Value::UndefinedValue,
        }
    }
}

impl PartialEq for Value {
    /// Whether two values are of the same kind and hold the same content.
    fn eq(&self, other: &Value) -> (r: bool) {
        match (self, other) {
            (Value::NumValue(a), Value::NumValue(b)) => *a == *b,
            (Value::StringValue(a), Value::StringValue(b)) => *a == *b,
            (Value::BoolValue(a), Value::BoolValue(b)) => *a == *b,
            (Value::UndefinedValue, Value::UndefinedValue) => true,
            _ => false,
        }
    }
}

impl PartialEqSpecImpl for Value {
    open spec fn obeys_eq_spec() -> bool {
        true
    }

    open spec fn eq_spec(&self, other: &Value) -> bool {
        self@ == other@
    }
}

/// The kind of a value.
pub open spec fn kind_of(v: ValueView) -> ValueKind {
    match v {
        ValueView::Num(_) => ValueKind::Number,
        ValueView::Str(_) => ValueKind::Text,
        ValueView::Bool(_) => ValueKind::Boolean,
        ValueView::Undefined => ValueKind::Undefined,
    }
}

/// The text that `print` writes for a value: a number in decimal, a string
/// as it is, a boolean as `true` or `false`, and `undefined`.
pub open spec fn value_text(v: ValueView) -> Seq<char> {
    match v {
        ValueView::Num(n) => decode_utf8(decimal(n as int)),
        ValueView::Str(s) => s,
        ValueView::Bool(b) => if b {
            "true"@
        } else {
            "false"@
        },
        ValueView::Undefined => "undefined"@,
    }
}

impl Value {
    /// The kind of this value.
    pub fn kind(&self) -> (k: ValueKind)
        ensures
            k == kind_of(self@),
    {
        match self {
            Value::NumValue(_) => ValueKind::Number,
            Value::StringValue(_) => ValueKind::Text,
            Value::BoolValue(_) => ValueKind::Boolean,
            Value::UndefinedValue => ValueKind::Undefined,
        }
    }

    /// The text that `print` writes for this value.
    pub fn to_text(&self) -> (res: String)
        ensures
            res@ == value_text(self@),
    {
        match self {
            Value::NumValue(n) => {
                let mut buf: Vec<u8> = Vec::new();
                push_decimal(*n, &mut buf);
                proof {
                    assert(buf@ =~= decimal(*n as int));
                    lemma_decimal_is_ascii(*n as int);
                    lemma_ascii_is_valid_utf8(buf@);
                }
                string_of_valid_utf8(buf)
            },
            Value::StringValue(s) => s.clone(),
            Value::BoolValue(b) => if *b {
                String::from_str("true")
            } else {
                String::from_str("false")
            },
            Value::UndefinedValue => String::from_str("undefined"),
        }
    }
}

/// The name of the kind of a value, as `typeof` gives it.
pub fn value_type_strings(val: &Value) -> (res: String)
    ensures
        res@ == kind_name(kind_of(val@)),
{
    let s = match val {
        Value::NumValue(_) => "number",
        Value::StringValue(_) => "string",
        Value::BoolValue(_) => "boolean",
        Value::UndefinedValue => "undefined",
    };
    String::from_str(s)
}

/// The quotient of `a` by `b`, rounded toward negative infinity.
pub open spec fn floor_div(a: int, b: int) -> int
    recommends
        b != 0,
{
    if b > 0 {
        a / b
    } else {
        (-a) / (-b)
    }
}

/// The remainder of `a` by `b` that goes with the quotient rounded toward
/// zero: it has the sign of `a`.
pub open spec fn trunc_rem(a: int, b: int) -> int
    recommends
        b != 0,
{
    let m = (if a < 0 {
        -a
    } else {
        a
    }) % (if b < 0 {
        -b
    } else {
        b
    });
    if a < 0 {
        -m
    } else {
        m
    }
}

/// The floor-division law: the quotient `q` of `a` by a nonzero `b` is the
/// one integer with `q <= a / b < q + 1` over the rationals.
pub proof fn lemma_floor_division_law(a: int, b: int)
    requires
        b != 0,
    ensures
        b > 0 ==> floor_div(a, b) * b <= a < (floor_div(a, b) + 1) * b,
        b < 0 ==> floor_div(a, b) * b >= a > (floor_div(a, b) + 1) * b,
{
    let q = floor_div(a, b);
    if b > 0 {
        assert(q * b <= a < (q + 1) * b) by (nonlinear_arith)
            requires
                b > 0,
                q == a / b,
        ;
    } else {
        let c = -b;
        let n = -a;
        assert(q * c <= n < (q + 1) * c) by (nonlinear_arith)
            requires
                c > 0,
                q == n / c,
        ;
        assert(q * b == -(q * c) && (q + 1) * b == -((q + 1) * c)) by (nonlinear_arith)
            requires
                c == -b,
        ;
    }
}

/// The floor quotient is the only integer within the bounds of the law.
pub proof fn lemma_floor_division_unique(a: int, b: int, q: int)
    requires
        b != 0,
        b > 0 ==> q * b <= a < (q + 1) * b,
        b < 0 ==> q * b >= a > (q + 1) * b,
    ensures
        q == floor_div(a, b),
{
    let f = floor_div(a, b);
    lemma_floor_division_law(a, b);
    assert(q == f) by (nonlinear_arith)
        requires
            b != 0,
            b > 0 ==> q * b <= a < (q + 1) * b,
            b < 0 ==> q * b >= a > (q + 1) * b,
            b > 0 ==> f * b <= a < (f + 1) * b,
            b < 0 ==> f * b >= a > (f + 1) * b,
    ;
}

/// The magnitude of a 64-bit integer.
fn magnitude(n: i64) -> (m: u64)
    ensures
        m == (if n < 0 {
            -(n as int)
        } else {
            n as int
        }),
{
    if n == i64::MIN {
        0x8000_0000_0000_0000u64
    } else if n < 0 {
        (-n) as u64
    } else {
        n as u64
    }
}

/// The negative of a magnitude.
fn negated(m: u64) -> (n: i64)
    requires
        m <= 0x8000_0000_0000_0000u64,
    ensures
        n == -(m as int),
{
    if m == 0x8000_0000_0000_0000u64 {
        i64::MIN
    } else {
        -(m as i64)
    }
}

/// Division rounded toward negative infinity.
///
/// The divisor must not be zero, and the quotient must fit: the least
/// integer cannot be divided by `-1`.
pub fn special_divide(num: i64, denom: i64) -> (q: i64)
    requires
        denom != 0,
        !(num == i64::MIN && denom == -1),
    ensures
        q == floor_div(num as int, denom as int),
{
    let n = magnitude(num);
    let d = magnitude(denom);
    let qm = n / d;
    let rm = n % d;
    let ghost a = num as int;
    let ghost b = denom as int;
    proof {
        assert(n == qm * d + rm && 0 <= rm < d && qm <= n) by (nonlinear_arith)
            requires
                d > 0,
                qm == n as int / d as int,
                rm == n as int % d as int,
                n >= 0,
        ;
    }
    if (num < 0) == (denom < 0) {
        proof {
            if num < 0 {
                // floor((-n) / (-d)) with both negated back
                assert(floor_div(a, b) == (n as int) / (d as int));
            } else {
                assert(floor_div(a, b) == (n as int) / (d as int));
            }
            assert(qm < 0x8000_0000_0000_0000u64) by (nonlinear_arith)
                requires
                    n == qm * d + rm,
                    rm >= 0,
                    d >= 1,
                    n <= 0x8000_0000_0000_0000u64,
                    !(n == 0x8000_0000_0000_0000u64 && d == 1),
            ;
        }
        qm as i64
    } else {
        let q = if rm == 0 {
            negated(qm)
        } else {
            proof {
                assert(qm < 0x8000_0000_0000_0000u64) by (nonlinear_arith)
                    requires
                        n == qm * d + rm,
                        rm > 0,
                        d >= 1,
                        n <= 0x8000_0000_0000_0000u64,
                ;
            }
            negated(qm + 1)
        };
        proof {
            let qi = q as int;
            if b > 0 {
                // a == -n
                assert(qi * b <= a < (qi + 1) * b) by (nonlinear_arith)
                    requires
                        a == -(n as int),
                        b == d as int,
                        n == qm * d + rm,
                        0 <= rm < d,
                        qi == (if rm == 0 {
                            -(qm as int)
                        } else {
                            -(qm as int) - 1
                        }),
                ;
            } else {
                // a == n, b == -d
                assert(qi * b >= a > (qi + 1) * b) by (nonlinear_arith)
                    requires
                        a == n as int,
                        b == -(d as int),
                        n == qm * d + rm,
                        0 <= rm < d,
                        qi == (if rm == 0 {
                            -(qm as int)
                        } else {
                            -(qm as int) - 1
                        }),
                ;
            }
            lemma_floor_division_unique(a, b, qi);
        }
        q
    }
}

/// The remainder that has the sign of the dividend.
///
/// The divisor must not be zero.
pub fn special_remainder(num: i64, denom: i64) -> (r: i64)
    requires
        denom != 0,
    ensures
        r == trunc_rem(num as int, denom as int),
{
    let n = magnitude(num);
    let d = magnitude(denom);
    let rm = n % d;
    proof {
        assert(0 <= rm < d) by (nonlinear_arith)
            requires
                d > 0,
                rm == n as int % d as int,
        ;
    }
    if num < 0 {
        negated(rm)
    } else {
        rm as i64
    }
}

/// One entry of the environment.
pub struct Binding {
    pub name: String,
    pub value: Value,
}

/// The variables of a run: a mapping from names to values, with no nested
/// scopes. Its view is that mapping.
pub struct Environment {
    bindings: Vec<Binding>,
}

/// The mapping from names to values.
pub type Env = Map<Seq<char>, ValueView>;

/// The index of the first of `bindings` whose name is `name`, or their
/// number if there is none.
pub open spec fn index_of(bindings: Seq<Binding>, name: Seq<char>) -> int
    decreases bindings.len(),
{
    if bindings.len() == 0 {
        0
    } else if bindings[0].name@ == name {
        0
    } else {
        1 + index_of(bindings.drop_first(), name)
    }
}

/// The first match is a match, and nothing before it is one.
pub proof fn lemma_index_of(bindings: Seq<Binding>, name: Seq<char>)
    ensures
        0 <= index_of(bindings, name) <= bindings.len(),
        index_of(bindings, name) < bindings.len() ==> bindings[index_of(bindings, name)].name@
            == name,
        forall|j: int| 0 <= j < index_of(bindings, name) ==> (#[trigger] bindings[j]).name@ != name,
    decreases bindings.len(),
{
    if bindings.len() > 0 && bindings[0].name@ != name {
        let rest = bindings.drop_first();
        lemma_index_of(rest, name);
        assert forall|j: int| 0 <= j < index_of(bindings, name) implies (
        #[trigger] bindings[j]).name@ != name by {
            if j > 0 {
                assert(bindings[j] == rest[j - 1]);
            }
        }
    }
}

/// An index with the name, before which no binding has it, is the first match.
pub proof fn lemma_index_of_is(bindings: Seq<Binding>, name: Seq<char>, i: int)
    requires
        0 <= i <= bindings.len(),
        i < bindings.len() ==> bindings[i].name@ == name,
        forall|j: int| 0 <= j < i ==> (#[trigger] bindings[j]).name@ != name,
    ensures
        index_of(bindings, name) == i,
    decreases bindings.len(),
{
    if bindings.len() > 0 && i > 0 {
        let rest = bindings.drop_first();
        assert(bindings[0].name@ != name);
        assert forall|j: int| 0 <= j < i - 1 implies (#[trigger] rest[j]).name@ != name by {
            assert(rest[j] == bindings[j + 1]);
        }
        lemma_index_of_is(rest, name, i - 1);
    }
}

/// The mapping that a sequence of bindings stands for: each name is bound to
/// the value of the first binding that has it.
pub open spec fn bindings_map(bindings: Seq<Binding>) -> Env {
    Map::new(
        |name: Seq<char>| index_of(bindings, name) < bindings.len(),
        |name: Seq<char>| bindings[index_of(bindings, name)].value@,
    )
}

impl View for Environment {
    type V = Env;

    closed spec fn view(&self) -> Env {
        bindings_map(self.bindings@)
    }
}

impl Environment {
    /// No name is bound twice.
    #[verifier::type_invariant]
    spec fn names_are_unique(&self) -> bool {
        forall|i: int, j: int|
            0 <= i < j < self.bindings.len() ==> (#[trigger] self.bindings[i]).name@ != (
            #[trigger] self.bindings[j]).name@
    }

    /// The empty environment.
    pub fn new() -> (env: Environment)
        ensures
            env@ == Map::<Seq<char>, ValueView>::empty(),
    {
        let env = Environment { bindings: Vec::new() };
        proof {
            assert(env@ =~= Map::<Seq<char>, ValueView>::empty());
        }
        env
    }

    /// The position of the binding of `name`, or the number of bindings if
    /// the name is not bound.
    fn find(&self, name: &String) -> (i: usize)
        ensures
            i == index_of(self.bindings@, name@),
            i <= self.bindings.len(),
    {
        let mut i: usize = 0;
        while i < self.bindings.len()
            invariant
                0 <= i <= self.bindings.len(),
                forall|j: int| 0 <= j < i ==> (#[trigger] self.bindings@[j]).name@ != name@,
            decreases self.bindings.len() - i,
        {
            if self.bindings[i].name == *name {
                proof {
                    lemma_index_of_is(self.bindings@, name@, i as int);
                }
                return i;
            }
            i = i + 1;
        }
        proof {
            lemma_index_of_is(self.bindings@, name@, i as int);
        }
        i
    }

    /// The value bound to `name`, if there is one.
    pub fn get(&self, name: &String) -> (res: Option<Value>)
        ensures
            match res {
                Some(v) => self@.contains_key(name@) && self@[name@] == v@,
                None => !self@.contains_key(name@),
            },
    {
        let i = self.find(name);
        if i < self.bindings.len() {
            Some(self.bindings[i].value.clone())
        } else {
            None
        }
    }

    /// Binds `name` to `value`, whether or not the name was bound before.
    pub fn insert(&mut self, name: String, value: Value)
        ensures
            final(self)@ == old(self)@.insert(name@, value@),
    {
        let i = self.find(&name);
        let ghost before = self.bindings@;
        let ghost key = name@;
        let ghost val = value@;
        proof {
            use_type_invariant(&*self);
            lemma_index_of(before, key);
        }
        let mut taken = Environment { bindings: Vec::new() };
        core::mem::swap(self, &mut taken);
        let mut bindings = taken.bindings;
        if i < bindings.len() {
            bindings.set(i, Binding { name, value });
        } else {
            bindings.push(Binding { name, value });
        }
        proof {
            let after = bindings@;
            assert forall|a: int, b: int| 0 <= a < b < after.len() implies (
            #[trigger] after[a]).name@ != (#[trigger] after[b]).name@ by {
                if a < before.len() {
                    assert(before[a].name@ == after[a].name@);
                }
                if b < before.len() {
                    assert(before[b].name@ == after[b].name@);
                }
            }
        }
        *self = Environment { bindings };
        proof {
            let after = self.bindings@;
            lemma_index_of(before, key);
            assert forall|k: Seq<char>| #[trigger]
                index_of(after, k) == (if k == key {
                    i as int
                } else if index_of(before, k) < before.len() {
                    index_of(before, k)
                } else {
                    after.len() as int
                }) by {
                lemma_index_of(before, k);
                let x = if k == key {
                    i as int
                } else if index_of(before, k) < before.len() {
                    index_of(before, k)
                } else {
                    after.len() as int
                };
                assert forall|j: int| 0 <= j < x implies (#[trigger] after[j]).name@ != k by {
                    if j < before.len() {
                        assert(before[j].name@ != k || j == i);
                    }
                }
                lemma_index_of_is(after, k, x);
            }
            assert forall|k: Seq<char>| #[trigger]
                self@.contains_key(k) == old(self)@.insert(key, val).contains_key(k) by {
                lemma_index_of(before, k);
                let _ = index_of(after, k);
            }
            assert forall|k: Seq<char>| #[trigger] self@.contains_key(k) implies self@[k] == old(
                self,
            )@.insert(key, val)[k] by {
                lemma_index_of(before, k);
                let _ = index_of(after, k);
            }
            assert(self@ =~= old(self)@.insert(key, val));
        }
    }
}

/// What evaluating an expression gives: its value or the first error, and
/// the environment afterwards. After an error that is the environment as it
/// was when the error was met: what was assigned before stays assigned.
pub type Evaluated = (Result<ValueView, JsishErrorView>, Env);

/// The number `n` as a value, if it fits in 64 bits.
pub open spec fn number(n: int) -> Result<ValueView, JsishErrorView> {
    if i64::MIN <= n <= i64::MAX {
        Ok(ValueView::Num(n as i64))
    } else {
        Err(JsishErrorView::ArithmeticOverflow)
    }
}

/// A prefix operator applied to a value.
pub open spec fn apply_unary(opr: UnaryOperator, v: ValueView) -> Result<
    ValueView,
    JsishErrorView,
> {
    match (opr, v) {
        (UnaryOperator::UopNot, ValueView::Bool(b)) => Ok(ValueView::Bool(!b)),
        (UnaryOperator::UopMinus, ValueView::Num(n)) => number(-(n as int)),
        (UnaryOperator::UopTypeof, _) => Ok(ValueView::Str(kind_name(kind_of(v)))),
        _ => Err(JsishErrorView::TypeError(TypeMismatch::Unary { opr, found: kind_of(v) })),
    }
}

/// A binary operator other than `&&` and `||` applied to two values.
pub open spec fn apply_binary(opr: BinaryOperator, l: ValueView, r: ValueView) -> Result<
    ValueView,
    JsishErrorView,
> {
    let mismatch = Err(
        JsishErrorView::TypeError(
            TypeMismatch::Binary { opr, lft: kind_of(l), rht: kind_of(r) },
        ),
    );
    match opr {
        BinaryOperator::BopEq => Ok(ValueView::Bool(l == r)),
        BinaryOperator::BopNe => Ok(ValueView::Bool(l != r)),
        BinaryOperator::BopComma => Ok(r),
        BinaryOperator::BopPlus => match (l, r) {
            (ValueView::Num(a), ValueView::Num(b)) => number(a + b),
            (ValueView::Str(a), ValueView::Str(b)) => Ok(ValueView::Str(a + b)),
            _ => mismatch,
        },
        _ => match (l, r) {
            (ValueView::Num(a), ValueView::Num(b)) => match opr {
                BinaryOperator::BopMinus => number(a - b),
                BinaryOperator::BopTimes => number(a * b),
                BinaryOperator::BopDivide => if b == 0 {
                    Err(JsishErrorView::DivisionByZero)
                } else {
                    number(floor_div(a as int, b as int))
                },
                BinaryOperator::BopMod => if b == 0 {
                    Err(JsishErrorView::DivisionByZero)
                } else {
                    number(trunc_rem(a as int, b as int))
                },
                BinaryOperator::BopLt => Ok(ValueView::Bool(a < b)),
                BinaryOperator::BopGt => Ok(ValueView::Bool(a > b)),
                BinaryOperator::BopGe => Ok(ValueView::Bool(a >= b)),
                BinaryOperator::BopLe => Ok(ValueView::Bool(a <= b)),
                _ => mismatch,
            },
            _ => mismatch,
        },
    }
}

/// The value of the left operand at which `&&` and `||` stop: `false` for
/// `&&`, `true` for `||`.
pub open spec fn short_circuit_value(opr: BinaryOperator) -> bool {
    opr == BinaryOperator::BopOr
}

/// The meaning of an expression in the environment `env`.
///
/// Operands are evaluated from left to right and each sees the assignments
/// of those before it. `&&`, `||` and `?:` leave the operand that they do
/// not need unevaluated.
pub open spec fn eval_expression_spec(e: ExpressionView, env: Env) -> Evaluated
    decreases e,
{
    match e {
        ExpressionView::Num(n) => (Ok(ValueView::Num(n)), env),
        ExpressionView::Str(s) => (Ok(ValueView::Str(s)), env),
        ExpressionView::True => (Ok(ValueView::Bool(true)), env),
        ExpressionView::False => (Ok(ValueView::Bool(false)), env),
        ExpressionView::Undefined => (Ok(ValueView::Undefined), env),
        ExpressionView::Id(name) => if env.contains_key(name) {
            (Ok(env[name]), env)
        } else {
            (Err(JsishErrorView::UndefinedVariable { name }), env)
        },
        ExpressionView::Unary(opr, opnd) => {
            let (x, env1) = eval_expression_spec(*opnd, env);
            match x {
                Err(err) => (Err(err), env1),
                Ok(v) => (apply_unary(opr, v), env1),
            }
        },
        ExpressionView::Binary(opr, lft, rht) => {
            let (x, env1) = eval_expression_spec(*lft, env);
            match x {
                Err(err) => (Err(err), env1),
                Ok(l) => if opr == BinaryOperator::BopAnd || opr == BinaryOperator::BopOr {
                    match l {
                        ValueView::Bool(b) => if b == short_circuit_value(opr) {
                            (Ok(ValueView::Bool(b)), env1)
                        } else {
                            let (y, env2) = eval_expression_spec(*rht, env1);
                            match y {
                                Err(err) => (Err(err), env2),
                                Ok(r) => match r {
                                    ValueView::Bool(c) => (Ok(ValueView::Bool(c)), env2),
                                    _ => (
                                        Err(
                                            JsishErrorView::TypeError(
                                                TypeMismatch::Binary {
                                                    opr,
                                                    lft: kind_of(l),
                                                    rht: kind_of(r),
                                                },
                                            ),
                                        ),
                                        env2,
                                    ),
                                },
                            }
                        },
                        _ => (
                            Err(
                                JsishErrorView::TypeError(
                                    TypeMismatch::LeftOperand { opr, found: kind_of(l) },
                                ),
                            ),
                            env1,
                        ),
                    }
                } else {
                    let (y, env2) = eval_expression_spec(*rht, env1);
                    match y {
                        Err(err) => (Err(err), env2),
                        Ok(r) => (apply_binary(opr, l, r), env2),
                    }
                },
            }
        },
        ExpressionView::Cond(guard, then_exp, else_exp) => {
            let (x, env1) = eval_expression_spec(*guard, env);
            match x {
                Err(err) => (Err(err), env1),
                Ok(g) => match g {
                    ValueView::Bool(true) => eval_expression_spec(*then_exp, env1),
                    ValueView::Bool(false) => eval_expression_spec(*else_exp, env1),
                    _ => (
                        Err(
                            JsishErrorView::TypeError(
                                TypeMismatch::Guard {
                                    construct: Guarded::Conditional,
                                    found: kind_of(g),
                                },
                            ),
                        ),
                        env1,
                    ),
                },
            }
        },
        ExpressionView::Assign(lft, rht) => {
            let (x, env1) = eval_expression_spec(*rht, env);
            match x {
                Err(err) => (Err(err), env1),
                Ok(v) => match *lft {
                    ExpressionView::Id(name) => (Ok(v), env1.insert(name, v)),
                    _ => (Err(JsishErrorView::NonIdentifierTarget), env1),
                },
            }
        },
    }
}

/// Equality never fails: `==` and `!=` compare values of any kinds, and
/// values of different kinds are not equal.
pub proof fn lemma_equality_never_errors(l: ValueView, r: ValueView)
    ensures
        apply_binary(BinaryOperator::BopEq, l, r) == Ok::<ValueView, JsishErrorView>(
            ValueView::Bool(l == r),
        ),
        apply_binary(BinaryOperator::BopNe, l, r) == Ok::<ValueView, JsishErrorView>(
            ValueView::Bool(l != r),
        ),
        kind_of(l) != kind_of(r) ==> l != r,
{
}

/// `typeof` never fails on a value, and gives one of the four names of kinds.
pub proof fn lemma_typeof_always_succeeds(v: ValueView)
    ensures
        apply_unary(UnaryOperator::UopTypeof, v) == Ok::<ValueView, JsishErrorView>(
            ValueView::Str(kind_name(kind_of(v))),
        ),
        kind_name(kind_of(v)) == "number"@ || kind_name(kind_of(v)) == "string"@ || kind_name(
            kind_of(v),
        ) == "boolean"@ || kind_name(kind_of(v)) == "undefined"@,
{
}

/// Short circuit: when the left operand of `&&` is `false`, or that of `||`
/// is `true`, the result is that value and the environment that the left
/// operand left, whatever the right operand is: it is not evaluated.
pub proof fn lemma_short_circuit(
    opr: BinaryOperator,
    lft: ExpressionView,
    rht: ExpressionView,
    other: ExpressionView,
    env: Env,
)
    requires
        opr == BinaryOperator::BopAnd || opr == BinaryOperator::BopOr,
        eval_expression_spec(lft, env).0 == Ok::<ValueView, JsishErrorView>(
            ValueView::Bool(short_circuit_value(opr)),
        ),
    ensures
        eval_expression_spec(ExpressionView::Binary(opr, Box::new(lft), Box::new(rht)), env)
            == eval_expression_spec(lft, env),
        eval_expression_spec(ExpressionView::Binary(opr, Box::new(lft), Box::new(rht)), env)
            == eval_expression_spec(
            ExpressionView::Binary(opr, Box::new(lft), Box::new(other)),
            env,
        ),
{
}

/// How a run, or a part of one, ends: with an error or without, with the
/// environment it leaves and with everything printed so far. After an error
/// these are the environment and the text as they were when the error was
/// met.
pub struct Outcome {
    pub error: Option<JsishErrorView>,
    pub env: Env,
    pub out: Seq<char>,
}

/// The outcome of a failure.
pub open spec fn failed(err: JsishErrorView, env: Env, out: Seq<char>) -> Outcome {
    Outcome { error: Some(err), env, out }
}

/// The outcome of a success.
pub open spec fn finished(env: Env, out: Seq<char>) -> Outcome {
    Outcome { error: None, env, out }
}

/// The meaning of a statement. No loop may go through more than `limit`
/// iterations: the next one ends the run with `IterationLimit`.
pub open spec fn exec_statement_spec(
    s: StatementView,
    env: Env,
    out: Seq<char>,
    limit: nat,
) -> Outcome
    decreases s, 0nat,
{
    match s {
        StatementView::Exp(e) => {
            let (x, env1) = eval_expression_spec(e, env);
            match x {
                Err(err) => failed(err, env1, out),
                Ok(_) => finished(env1, out),
            }
        },
        StatementView::Print(e) => {
            let (x, env1) = eval_expression_spec(e, env);
            match x {
                Err(err) => failed(err, env1, out),
                Ok(v) => finished(env1, out + value_text(v)),
            }
        },
        StatementView::Block(stmts) => exec_statements_spec(stmts, env, out, limit),
        StatementView::If(guard, th, el) => {
            let (x, env1) = eval_expression_spec(guard, env);
            match x {
                Err(err) => failed(err, env1, out),
                Ok(g) => match g {
                    ValueView::Bool(true) => exec_statement_spec(*th, env1, out, limit),
                    ValueView::Bool(false) => exec_statement_spec(*el, env1, out, limit),
                    _ => failed(
                        JsishErrorView::TypeError(
                            TypeMismatch::Guard { construct: Guarded::If, found: kind_of(g) },
                        ),
                        env1,
                        out,
                    ),
                },
            }
        },
        StatementView::While(guard, body) => exec_while_spec(guard, *body, env, out, limit, 0),
    }
}

/// The meaning of statements in sequence: the first error ends them.
pub open spec fn exec_statements_spec(
    stmts: Seq<StatementView>,
    env: Env,
    out: Seq<char>,
    limit: nat,
) -> Outcome
    decreases stmts, 0nat,
{
    if stmts.len() == 0 {
        finished(env, out)
    } else {
        let first = exec_statement_spec(stmts[0], env, out, limit);
        if first.error is Some {
            first
        } else {
            exec_statements_spec(stmts.drop_first(), first.env, first.out, limit)
        }
    }
}

/// The meaning of a loop that has gone through `count` iterations: the guard
/// is evaluated afresh, must be a boolean, and ends the loop when `false`.
pub open spec fn exec_while_spec(
    guard: ExpressionView,
    body: StatementView,
    env: Env,
    out: Seq<char>,
    limit: nat,
    count: nat,
) -> Outcome
    decreases body, limit - count + 1,
{
    let (x, env1) = eval_expression_spec(guard, env);
    match x {
        Err(err) => failed(err, env1, out),
        Ok(g) => match g {
            ValueView::Bool(false) => finished(env1, out),
            ValueView::Bool(true) => if count >= limit {
                failed(JsishErrorView::IterationLimit, env1, out)
            } else {
                let once = exec_statement_spec(body, env1, out, limit);
                if once.error is Some {
                    once
                } else {
                    exec_while_spec(guard, body, once.env, once.out, limit, count + 1)
                }
            },
            _ => failed(
                JsishErrorView::TypeError(
                    TypeMismatch::Guard { construct: Guarded::While, found: kind_of(g) },
                ),
                env1,
                out,
            ),
        },
    }
}

/// The meaning of the declarations of a `var` list, in order: a name
/// without an initializer is bound to `undefined`. The first error ends the
/// list.
pub open spec fn exec_declarations_spec(decls: Seq<DeclarationView>, env: Env) -> (
    Option<JsishErrorView>,
    Env,
)
    decreases decls.len(),
{
    if decls.len() == 0 {
        (None, env)
    } else {
        match decls[0] {
            DeclarationView::Id(id) => exec_declarations_spec(
                decls.drop_first(),
                env.insert(id, ValueView::Undefined),
            ),
            DeclarationView::Init(id, src) => {
                let (x, env1) = eval_expression_spec(src, env);
                match x {
                    Err(err) => (Some(err), env1),
                    Ok(v) => exec_declarations_spec(decls.drop_first(), env1.insert(id, v)),
                }
            },
        }
    }
}

/// The meaning of a top-level element.
pub open spec fn exec_source_element_spec(
    e: SourceElementView,
    env: Env,
    out: Seq<char>,
    limit: nat,
) -> Outcome {
    match e {
        SourceElementView::Stmt(s) => exec_statement_spec(s, env, out, limit),
        SourceElementView::VarDecl(decls) => {
            let (error, env1) = exec_declarations_spec(decls, env);
            Outcome { error, env: env1, out }
        },
    }
}

/// The meaning of top-level elements in sequence.
pub open spec fn exec_source_elements_spec(
    elems: Seq<SourceElementView>,
    env: Env,
    out: Seq<char>,
    limit: nat,
) -> Outcome
    decreases elems.len(),
{
    if elems.len() == 0 {
        finished(env, out)
    } else {
        let first = exec_source_element_spec(elems[0], env, out, limit);
        if first.error is Some {
            first
        } else {
            exec_source_elements_spec(elems.drop_first(), first.env, first.out, limit)
        }
    }
}

/// The meaning of a program: its elements in order, from the empty
/// environment, with `out` already printed.
pub open spec fn run_spec(p: ProgramView, out: Seq<char>, limit: nat) -> Outcome {
    exec_source_elements_spec(p.elements, Map::empty(), out, limit)
}

/// Whether an executable result and the environment after it are what the
/// evaluation `e` gives.
pub open spec fn evaluated_as(res: JsishResult<Value>, env: Env, e: Evaluated) -> bool {
    &&& env == e.1
    &&& match e.0 {
        Ok(v) => res is Ok && res->Ok_0@ == v,
        Err(err) => res is Err && res->Err_0@ == err,
    }
}

/// Whether an executable result, the environment and the printed text after
/// it are what the outcome `o` says.
pub open spec fn outcome_as(res: JsishResult<()>, env: Env, out: Seq<char>, o: Outcome) -> bool {
    &&& out == o.out
    &&& env == o.env
    &&& match o.error {
        None => res is Ok,
        Some(err) => res is Err && res->Err_0@ == err,
    }
}

/// The error of a prefix operator that met a value of the wrong kind.
pub fn unary_error(opr: UnaryOperator, act: &Value) -> (res: JsishError)
    ensures
        res@ == JsishErrorView::TypeError(TypeMismatch::Unary { opr, found: kind_of(act@) }),
{
    JsishError::TypeError(TypeMismatch::Unary { opr, found: act.kind() })
}

/// The error of a binary operator that met values of the wrong kinds.
fn binary_error(opr: BinaryOperator, l: &Value, r: &Value) -> (res: JsishError)
    ensures
        res@ == JsishErrorView::TypeError(
            TypeMismatch::Binary { opr, lft: kind_of(l@), rht: kind_of(r@) },
        ),
{
    JsishError::TypeError(TypeMismatch::Binary { opr, lft: l.kind(), rht: r.kind() })
}

/// The error of a guard that is not a boolean.
fn guard_error(construct: Guarded, g: &Value) -> (res: JsishError)
    ensures
        res@ == JsishErrorView::TypeError(TypeMismatch::Guard { construct, found: kind_of(g@) }),
{
    JsishError::TypeError(TypeMismatch::Guard { construct, found: g.kind() })
}

/// A checked arithmetic result as a value.
fn number_value(n: Option<i64>, Ghost(exact): Ghost<int>) -> (res: JsishResult<Value>)
    requires
        match n {
            Some(v) => v == exact,
            None => !(i64::MIN <= exact <= i64::MAX),
        },
    ensures
        match number(exact) {
            Ok(v) => res is Ok && res->Ok_0@ == v,
            Err(err) => res is Err && res->Err_0@ == err,
        },
{
    match n {
        Some(v) => Ok(Value::NumValue(v)),
        None => Err(JsishError::ArithmeticOverflow),
    }
}

/// Applies a prefix operator to a value.
pub fn apply_unary_operator(opr: UnaryOperator, val: Value) -> (res: JsishResult<Value>)
    ensures
        match apply_unary(opr, val@) {
            Ok(v) => res is Ok && res->Ok_0@ == v,
            Err(err) => res is Err && res->Err_0@ == err,
        },
{
    match opr {
        UnaryOperator::UopNot => match val {
            Value::BoolValue(b) => Ok(Value::BoolValue(!b)),
            val => Err(unary_error(opr, &val)),
        },
        UnaryOperator::UopMinus => match val {
            Value::NumValue(n) => {
                if n == i64::MIN {
                    Err(JsishError::ArithmeticOverflow)
                } else {
                    Ok(Value::NumValue(-n))
                }
            },
            val => Err(unary_error(opr, &val)),
        },
        UnaryOperator::UopTypeof => Ok(Value::StringValue(value_type_strings(&val))),
    }
}

/// Applies a binary operator other than `&&` and `||` to two values.
pub fn apply_binary_operator(opr: BinaryOperator, l: Value, r: Value) -> (res: JsishResult<Value>)
    ensures
        match apply_binary(opr, l@, r@) {
            Ok(v) => res is Ok && res->Ok_0@ == v,
            Err(err) => res is Err && res->Err_0@ == err,
        },
{
    match opr {
        BinaryOperator::BopEq => Ok(Value::BoolValue(l == r)),
        BinaryOperator::BopNe => Ok(Value::BoolValue(!(l == r))),
        BinaryOperator::BopComma => Ok(r),
        BinaryOperator::BopPlus => match (l, r) {
            (Value::NumValue(a), Value::NumValue(b)) => number_value(
                a.checked_add(b),
                Ghost(a + b),
            ),
            (Value::StringValue(a), Value::StringValue(b)) => Ok(
                Value::StringValue(a.concat(b.as_str())),
            ),
            (l, r) => Err(binary_error(opr, &l, &r)),
        },
        _ => match (l, r) {
            (Value::NumValue(a), Value::NumValue(b)) => match opr {
                BinaryOperator::BopMinus => number_value(a.checked_sub(b), Ghost(a - b)),
                BinaryOperator::BopTimes => number_value(a.checked_mul(b), Ghost(a * b)),
                BinaryOperator::BopDivide => {
                    if b == 0 {
                        Err(JsishError::DivisionByZero)
                    } else if a == i64::MIN && b == -1 {
                        proof {
                            assert(floor_div(a as int, b as int) == 0x8000_0000_0000_0000int);
                        }
                        Err(JsishError::ArithmeticOverflow)
                    } else {
                        Ok(Value::NumValue(special_divide(a, b)))
                    }
                },
                BinaryOperator::BopMod => {
                    if b == 0 {
                        Err(JsishError::DivisionByZero)
                    } else {
                        Ok(Value::NumValue(special_remainder(a, b)))
                    }
                },
                BinaryOperator::BopLt => Ok(Value::BoolValue(a < b)),
                BinaryOperator::BopGt => Ok(Value::BoolValue(a > b)),
                BinaryOperator::BopGe => Ok(Value::BoolValue(a >= b)),
                BinaryOperator::BopLe => Ok(Value::BoolValue(a <= b)),
                _ => Err(binary_error(opr, &Value::NumValue(a), &Value::NumValue(b))),
            },
            (l, r) => Err(binary_error(opr, &l, &r)),
        },
    }
}

/// Evaluates a prefix expression.
fn eval_unary_expression(d: &ExpUnaryData, env: &mut Environment) -> (res: JsishResult<Value>)
    ensures
        evaluated_as(
            res,
            final(env)@,
            eval_expression_spec(ExpressionView::Unary(d.opr, Box::new(d.opnd@)), old(env)@),
        ),
    decreases d, 0nat,
{
    let val = eval_expression(&*d.opnd, env)?;
    apply_unary_operator(d.opr, val)
}

/// Evaluates `&&` or `||`: the right operand only if the left one does not
/// decide. `sc_value` is the value of the left operand that decides.
fn handle_short_circuit(sc_value: bool, d: &ExpBinaryData, env: &mut Environment) -> (res:
    JsishResult<Value>)
    requires
        d.opr == BinaryOperator::BopAnd || d.opr == BinaryOperator::BopOr,
        sc_value == short_circuit_value(d.opr),
    ensures
        evaluated_as(
            res,
            final(env)@,
            eval_expression_spec(
                ExpressionView::Binary(d.opr, Box::new(d.lft@), Box::new(d.rht@)),
                old(env)@,
            ),
        ),
    decreases d, 0nat,
{
    let lft_val = eval_expression(&*d.lft, env)?;
    if let Value::BoolValue(b) = lft_val {
        if b == sc_value {
            Ok(Value::BoolValue(sc_value))
        } else {
            let rht_val = eval_expression(&*d.rht, env)?;
            if let Value::BoolValue(c) = rht_val {
                Ok(Value::BoolValue(c))
            } else {
                Err(binary_error(d.opr, &lft_val, &rht_val))
            }
        }
    } else {
        Err(JsishError::TypeError(TypeMismatch::LeftOperand { opr: d.opr, found: lft_val.kind() }))
    }
}

/// Evaluates a binary expression: both operands from left to right, then
/// the operator; `&&` and `||` short-circuit.
fn eval_binary_expression(d: &ExpBinaryData, env: &mut Environment) -> (res: JsishResult<Value>)
    ensures
        evaluated_as(
            res,
            final(env)@,
            eval_expression_spec(
                ExpressionView::Binary(d.opr, Box::new(d.lft@), Box::new(d.rht@)),
                old(env)@,
            ),
        ),
    decreases d, 1nat,
{
    if d.opr == BinaryOperator::BopAnd {
        return handle_short_circuit(false, d, env);
    }
    if d.opr == BinaryOperator::BopOr {
        return handle_short_circuit(true, d, env);
    }
    let lft_val = eval_expression(&*d.lft, env)?;
    let rht_val = eval_expression(&*d.rht, env)?;
    apply_binary_operator(d.opr, lft_val, rht_val)
}

/// Evaluates a conditional expression: the guard, then exactly one branch.
fn eval_conditional_expression(d: &ExpCondData, env: &mut Environment) -> (res: JsishResult<
    Value,
>)
    ensures
        evaluated_as(
            res,
            final(env)@,
            eval_expression_spec(
                ExpressionView::Cond(
                    Box::new(d.guard@),
                    Box::new(d.then_exp@),
                    Box::new(d.else_exp@),
                ),
                old(env)@,
            ),
        ),
    decreases d, 0nat,
{
    match eval_expression(&*d.guard, env)? {
        Value::BoolValue(true) => eval_expression(&*d.then_exp, env),
        Value::BoolValue(false) => eval_expression(&*d.else_exp, env),
        g_val => Err(guard_error(Guarded::Conditional, &g_val)),
    }
}

/// Evaluates an assignment: the right side first, then the binding of the
/// target, which is created or overwritten. The value is the assigned one.
fn eval_assignment_expression(d: &ExpAssignData, env: &mut Environment) -> (res: JsishResult<
    Value,
>)
    ensures
        evaluated_as(
            res,
            final(env)@,
            eval_expression_spec(
                ExpressionView::Assign(Box::new(d.lft@), Box::new(d.rht@)),
                old(env)@,
            ),
        ),
    decreases d, 0nat,
{
    let rht_value = eval_expression(&*d.rht, env)?;
    match &*d.lft {
        Expression::ExpId(id) => {
            env.insert(id.clone(), rht_value.clone());
            Ok(rht_value)
        },
        _ => Err(JsishError::NonIdentifierTarget),
    }
}

/// Evaluates an expression in `env`.
///
/// The value and the environment afterwards are exactly those of
/// [`eval_expression_spec`]; each error comes on the inputs on which
/// `eval_expression_spec` names it.
pub fn eval_expression(exp: &Expression, env: &mut Environment) -> (res: JsishResult<Value>)
    ensures
        evaluated_as(res, final(env)@, eval_expression_spec(exp@, old(env)@)),
    decreases exp, 0nat,
{
    match exp {
        Expression::ExpId(id) => match env.get(id) {
            None => Err(JsishError::UndefinedVariable { name: id.clone() }),
            Some(v) => Ok(v),
        },
        Expression::ExpNum(n) => Ok(Value::NumValue(*n)),
        Expression::ExpString(s) => Ok(Value::StringValue(s.clone())),
        Expression::ExpTrue => Ok(Value::BoolValue(true)),
        Expression::ExpFalse => Ok(Value::BoolValue(false)),
        Expression::ExpUndefined => Ok(Value::UndefinedValue),
        Expression::ExpUnary(d) => eval_unary_expression(d, env),
        Expression::ExpBinary(d) => eval_binary_expression(d, env),
        Expression::ExpCond(d) => eval_conditional_expression(d, env),
        Expression::ExpAssign(d) => eval_assignment_expression(d, env),
    }
}

/// Executes the statements of a block in order.
#[verifier::loop_isolation(false)]
fn eval_block_statement(
    stmts: &Vec<Statement>,
    env: &mut Environment,
    out: &mut String,
    limit: u64,
) -> (res: JsishResult<()>)
    ensures
        outcome_as(
            res,
            final(env)@,
            final(out)@,
            exec_statements_spec(statement_views(stmts@), old(env)@, old(out)@, limit as nat),
        ),
    decreases stmts, 0nat,
{
    let ghost views = statement_views(stmts@);
    let ghost goal = exec_statements_spec(views, env@, out@, limit as nat);
    let mut i: usize = 0;
    proof {
        assert(views.skip(0) =~= views);
    }
    while i < stmts.len()
        invariant
            0 <= i <= stmts.len(),
            goal == exec_statements_spec(views.skip(i as int), env@, out@, limit as nat),
        decreases stmts.len() - i,
    {
        proof {
            assert(views.skip(i as int).drop_first() =~= views.skip(i + 1));
            assert(views.skip(i as int)[0] == stmts@[i as int]@);
        }
        match eval_statement(&stmts[i], env, out, limit) {
            Ok(()) => {},
            Err(e) => {
                return Err(e);
            },
        }
        i = i + 1;
    }
    Ok(())
}

/// Executes an `if` statement: the guard, then exactly one branch.
fn eval_if_statement(d: &StIfData, env: &mut Environment, out: &mut String, limit: u64) -> (res:
    JsishResult<()>)
    ensures
        outcome_as(
            res,
            final(env)@,
            final(out)@,
            exec_statement_spec(
                StatementView::If(d.guard@, Box::new(d.th@), Box::new(d.el@)),
                old(env)@,
                old(out)@,
                limit as nat,
            ),
        ),
    decreases d, 0nat,
{
    match eval_expression(&d.guard, env)? {
        Value::BoolValue(true) => eval_statement(&*d.th, env, out, limit),
        Value::BoolValue(false) => eval_statement(&*d.el, env, out, limit),
        g_val => Err(guard_error(Guarded::If, &g_val)),
    }
}

/// Executes a `while` statement: the guard is evaluated afresh before
/// every iteration.
#[verifier::loop_isolation(false)]
fn eval_while_statement(
    d: &StWhileData,
    env: &mut Environment,
    out: &mut String,
    limit: u64,
) -> (res: JsishResult<()>)
    ensures
        outcome_as(
            res,
            final(env)@,
            final(out)@,
            exec_statement_spec(
                StatementView::While(d.guard@, Box::new(d.body@)),
                old(env)@,
                old(out)@,
                limit as nat,
            ),
        ),
    decreases d, 0nat,
{
    let ghost goal = exec_while_spec(d.guard@, d.body@, env@, out@, limit as nat, 0);
    let mut count: u64 = 0;
    let mut done = false;
    while !done
        invariant
            count <= limit,
            !done ==> goal == exec_while_spec(
                d.guard@,
                d.body@,
                env@,
                out@,
                limit as nat,
                count as nat,
            ),
            done ==> goal == finished(env@, out@),
        decreases limit - count + if done { 0nat } else { 1nat },
    {
        match eval_expression(&d.guard, env) {
            Err(e) => {
                return Err(e);
            },
            Ok(Value::BoolValue(true)) => {
                if count >= limit {
                    return Err(JsishError::IterationLimit);
                }
                match eval_statement(&*d.body, env, out, limit) {
                    Ok(()) => {},
                    Err(e) => {
                        return Err(e);
                    },
                }
                count = count + 1;
            },
            Ok(Value::BoolValue(false)) => {
                done = true;
            },
            Ok(g_val) => {
                return Err(guard_error(Guarded::While, &g_val));
            },
        }
    }
    Ok(())
}

/// Executes a statement in `env`, appending what it prints to `out`.
///
/// The result, the environment and the printed text are exactly those of
/// [`exec_statement_spec`]. No loop goes through more than `limit`
/// iterations.
pub fn eval_statement(
    stmt: &Statement,
    env: &mut Environment,
    out: &mut String,
    limit: u64,
) -> (res: JsishResult<()>)
    ensures
        outcome_as(
            res,
            final(env)@,
            final(out)@,
            exec_statement_spec(stmt@, old(env)@, old(out)@, limit as nat),
        ),
    decreases stmt, 0nat,
{
    match stmt {
        Statement::StPrint(exp) => {
            let v = eval_expression(exp, env)?;
            let text = v.to_text();
            out.append(text.as_str());
            Ok(())
        },
        Statement::StExp(exp) => {
            let _ = eval_expression(exp, env)?;
            Ok(())
        },
        Statement::StBlock(stmts) => {
            proof {
                lemma_block_view(*stmts);
            }
            eval_block_statement(stmts, env, out, limit)
        },
        Statement::StIf(d) => eval_if_statement(d, env, out, limit),
        Statement::StWhile(d) => eval_while_statement(d, env, out, limit),
    }
}

/// Executes the declarations of a `var` list in order.
#[verifier::loop_isolation(false)]
fn eval_declarations(decls: &Vec<Declaration>, env: &mut Environment) -> (res: JsishResult<()>)
    ensures
        final(env)@ == exec_declarations_spec(declaration_views(decls@), old(env)@).1,
        match exec_declarations_spec(declaration_views(decls@), old(env)@).0 {
            None => res is Ok,
            Some(err) => res is Err && res->Err_0@ == err,
        },
{
    let ghost views = declaration_views(decls@);
    let ghost goal = exec_declarations_spec(views, env@);
    let mut i: usize = 0;
    proof {
        assert(views.skip(0) =~= views);
    }
    while i < decls.len()
        invariant
            0 <= i <= decls.len(),
            goal == exec_declarations_spec(views.skip(i as int), env@),
        decreases decls.len() - i,
    {
        proof {
            assert(views.skip(i as int).drop_first() =~= views.skip(i + 1));
            assert(views.skip(i as int)[0] == decls@[i as int]@);
        }
        match &decls[i] {
            Declaration::DeclId(id) => {
                env.insert(id.clone(), Value::UndefinedValue);
            },
            Declaration::DeclInit(d) => {
                let v = match eval_expression(&*d.src, env) {
                    Ok(v) => v,
                    Err(e) => {
                        return Err(e);
                    },
                };
                env.insert(d.id.clone(), v);
            },
        }
        i = i + 1;
    }
    Ok(())
}

/// Executes a top-level element.
fn eval_source_element(
    se: &SourceElement,
    env: &mut Environment,
    out: &mut String,
    limit: u64,
) -> (res: JsishResult<()>)
    ensures
        outcome_as(
            res,
            final(env)@,
            final(out)@,
            exec_source_element_spec(se@, old(env)@, old(out)@, limit as nat),
        ),
{
    match se {
        SourceElement::Stmt(s) => eval_statement(s, env, out, limit),
        SourceElement::VarDecl(decls) => eval_declarations(decls, env),
    }
}

/// Executes the elements of a program in order.
#[verifier::loop_isolation(false)]
fn eval_program(prog: &Program, env: &mut Environment, out: &mut String, limit: u64) -> (res:
    JsishResult<()>)
    ensures
        outcome_as(
            res,
            final(env)@,
            final(out)@,
            exec_source_elements_spec(prog@.elements, old(env)@, old(out)@, limit as nat),
        ),
{
    match prog {
        Program::Prog(ses) => {
            let ghost views = source_element_views(ses@);
            let ghost goal = exec_source_elements_spec(views, env@, out@, limit as nat);
            let mut i: usize = 0;
            proof {
                assert(views.skip(0) =~= views);
            }
            while i < ses.len()
                invariant
                    0 <= i <= ses.len(),
                    goal == exec_source_elements_spec(
                        views.skip(i as int),
                        env@,
                        out@,
                        limit as nat,
                    ),
                decreases ses.len() - i,
            {
                proof {
                    assert(views.skip(i as int).drop_first() =~= views.skip(i + 1));
                    assert(views.skip(i as int)[0] == ses@[i as int]@);
                }
                match eval_source_element(&ses[i], env, out, limit) {
                    Ok(()) => {},
                    Err(e) => {
                        return Err(e);
                    },
                }
                i = i + 1;
            }
            Ok(())
        },
    }
}

/// Whether the result of a run and the text in the sink after it are what
/// the outcome `o` says.
pub open spec fn run_as(res: JsishResult<()>, out: Seq<char>, o: Outcome) -> bool {
    &&& out == o.out
    &&& match o.error {
        None => res is Ok,
        Some(err) => res is Err && res->Err_0@ == err,
    }
}

/// Runs a program from the empty environment and appends what it prints to
/// `out`, with no loop going through more than `limit` iterations.
///
/// The result and the printed text are exactly those of [`run_spec`]: `Ok`
/// when every element ran to its end, else the first error, with everything
/// printed before it in `out`.
pub fn interpret_bounded(p: &Program, limit: u64, out: &mut String) -> (res: JsishResult<()>)
    ensures
        run_as(res, final(out)@, run_spec(p@, old(out)@, limit as nat)),
{
    let mut tle = Environment::new();
    eval_program(p, &mut tle, out, limit)
}

/// Runs a program from the empty environment and appends what it prints to
/// `out`.
///
/// The result and the printed text are exactly those of [`run_spec`] with
/// the greatest limit on the iterations of a loop that a `u64` can hold.
pub fn interpret(p: Program, out: &mut String) -> (res: JsishResult<()>)
    ensures
        run_as(res, final(out)@, run_spec(p@, old(out)@, u64::MAX as nat)),
{
    interpret_bounded(&p, u64::MAX, out)
}

} // verus!
