//! The abstract syntax tree shared by the parser, the pretty-printer and the
//! interpreter, together with the mathematical view of every node.
//!
//! Each executable node type owns its children. Its view replaces every
//! `String` by the sequence of its characters and every `Vec` by a `Seq`, so
//! that contracts can speak of trees as plain values.
use vstd::prelude::*;

verus! {

/// The closed set of binary operators.
#[derive(Clone, Copy, Debug, PartialEq, Eq, Structural)]
pub enum BinaryOperator {
    BopPlus,
    BopMinus,
    BopTimes,
    BopDivide,
    BopMod,
    BopEq,
    BopNe,
    BopLt,
    BopGt,
    BopGe,
    BopLe,
    BopAnd,
    BopOr,
    BopComma,
}

/// The closed set of prefix operators.
#[derive(Clone, Copy, Debug, PartialEq, Eq, Structural)]
pub enum UnaryOperator {
    UopNot,
    UopTypeof,
    UopMinus,
}

/// The spelling of a binary operator.
pub open spec fn binary_symbol(opr: BinaryOperator) -> Seq<char> {
    match opr {
        BinaryOperator::BopPlus => "+"@,
        BinaryOperator::BopMinus => "-"@,
        BinaryOperator::BopTimes => "*"@,
        BinaryOperator::BopDivide => "/"@,
        BinaryOperator::BopMod => "%"@,
        BinaryOperator::BopEq => "=="@,
        BinaryOperator::BopNe => "!="@,
        BinaryOperator::BopLt => "<"@,
        BinaryOperator::BopGt => ">"@,
        BinaryOperator::BopGe => ">="@,
        BinaryOperator::BopLe => "<="@,
        BinaryOperator::BopAnd => "&&"@,
        BinaryOperator::BopOr => "||"@,
        BinaryOperator::BopComma => ","@,
    }
}

/// The spelling of a prefix operator.
pub open spec fn unary_symbol(opr: UnaryOperator) -> Seq<char> {
    match opr {
        UnaryOperator::UopNot => "!"@,
        UnaryOperator::UopTypeof => "typeof"@,
        UnaryOperator::UopMinus => "-"@,
    }
}

impl BinaryOperator {
    /// The spelling of this operator.
    pub fn symbol(&self) -> (res: &'static str)
        ensures
            res@ == binary_symbol(*self),
    {
        match self {
            BinaryOperator::BopPlus => "+",
            BinaryOperator::BopMinus => "-",
            BinaryOperator::BopTimes => "*",
            BinaryOperator::BopDivide => "/",
            BinaryOperator::BopMod => "%",
            BinaryOperator::BopEq => "==",
            BinaryOperator::BopNe => "!=",
            BinaryOperator::BopLt => "<",
            BinaryOperator::BopGt => ">",
            BinaryOperator::BopGe => ">=",
            BinaryOperator::BopLe => "<=",
            BinaryOperator::BopAnd => "&&",
            BinaryOperator::BopOr => "||",
            BinaryOperator::BopComma => ",",
        }
    }
}

impl UnaryOperator {
    /// The spelling of this operator.
    pub fn symbol(&self) -> (res: &'static str)
        ensures
            res@ == unary_symbol(*self),
    {
        match self {
            UnaryOperator::UopNot => "!",
            UnaryOperator::UopTypeof => "typeof",
            UnaryOperator::UopMinus => "-",
        }
    }
}

/// Operator and operands of a binary expression.
#[derive(Debug, PartialEq)]
pub struct ExpBinaryData {
    pub opr: BinaryOperator,
    pub lft: Box<Expression>,
    pub rht: Box<Expression>,
}

/// Operator and operand of a prefix expression.
#[derive(Debug, PartialEq)]
pub struct ExpUnaryData {
    pub opr: UnaryOperator,
    pub opnd: Box<Expression>,
}

/// Guard and branches of a conditional expression.
#[derive(Debug, PartialEq)]
pub struct ExpCondData {
    pub guard: Box<Expression>,
    pub then_exp: Box<Expression>,
    pub else_exp: Box<Expression>,
}

/// Target and source of an assignment.
#[derive(Debug, PartialEq)]
pub struct ExpAssignData {
    pub lft: Box<Expression>,
    pub rht: Box<Expression>,
}

/// An expression: a literal, an identifier, or an operator with the operands it owns.
#[derive(Debug, PartialEq)]
pub enum Expression {
    ExpNum(i64),
    ExpString(String),
    ExpTrue,
    ExpFalse,
    ExpUndefined,
    ExpId(String),
    ExpBinary(ExpBinaryData),
    ExpUnary(ExpUnaryData),
    ExpCond(ExpCondData),
    ExpAssign(ExpAssignData),
}

/// Guard and branches of an `if` statement. A missing `else` is an empty block.
#[derive(Debug, PartialEq)]
pub struct StIfData {
    pub guard: Expression,
    pub th: Box<Statement>,
    pub el: Box<Statement>,
}

/// Guard and body of a `while` statement.
#[derive(Debug, PartialEq)]
pub struct StWhileData {
    pub guard: Expression,
    pub body: Box<Statement>,
}

/// A statement. A block owns its statements in order.
#[derive(Debug, PartialEq)]
pub enum Statement {
    StExp(Expression),
    StPrint(Expression),
    StBlock(Vec<Statement>),
    StIf(StIfData),
    StWhile(StWhileData),
}

/// Name and initializer of a `var` declaration that has one.
#[derive(Debug, PartialEq)]
pub struct DeclInitData {
    pub id: String,
    pub src: Box<Expression>,
}

/// One entry of a `var` list: a name, with an initializer or without.
#[derive(Debug, PartialEq)]
pub enum Declaration {
    DeclId(String),
    DeclInit(DeclInitData),
}

/// A top-level element: a statement or a `var` list.
#[derive(Debug, PartialEq)]
pub enum SourceElement {
    Stmt(Statement),
    VarDecl(Vec<Declaration>),
}

/// A program: its top-level elements in source order.
#[derive(Debug, PartialEq)]
pub enum Program {
    Prog(Vec<SourceElement>),
}

/// An expression as a mathematical value.
pub enum ExpressionView {
    Num(i64),
    Str(Seq<char>),
    True,
    False,
    Undefined,
    Id(Seq<char>),
    Binary(BinaryOperator, Box<ExpressionView>, Box<ExpressionView>),
    Unary(UnaryOperator, Box<ExpressionView>),
    Cond(Box<ExpressionView>, Box<ExpressionView>, Box<ExpressionView>),
    Assign(Box<ExpressionView>, Box<ExpressionView>),
}

/// A statement as a mathematical value.
pub enum StatementView {
    Exp(ExpressionView),
    Print(ExpressionView),
    Block(Seq<StatementView>),
    If(ExpressionView, Box<StatementView>, Box<StatementView>),
    While(ExpressionView, Box<StatementView>),
}

/// A declaration as a mathematical value.
pub enum DeclarationView {
    Id(Seq<char>),
    Init(Seq<char>, ExpressionView),
}

/// A top-level element as a mathematical value.
pub enum SourceElementView {
    Stmt(StatementView),
    VarDecl(Seq<DeclarationView>),
}

/// A program as a mathematical value: its elements in source order.
pub struct ProgramView {
    pub elements: Seq<SourceElementView>,
}

/// The view of an expression: the same tree over character sequences.
pub open spec fn expression_view(e: Expression) -> ExpressionView
    decreases e,
{
    match e {
        Expression::ExpNum(n) => ExpressionView::Num(n),
        Expression::ExpString(s) => ExpressionView::Str(s@),
        Expression::ExpTrue => ExpressionView::True,
        Expression::ExpFalse => ExpressionView::False,
        Expression::ExpUndefined => ExpressionView::Undefined,
        Expression::ExpId(s) => ExpressionView::Id(s@),
        Expression::ExpBinary(d) => ExpressionView::Binary(
            d.opr,
            Box::new(expression_view(*d.lft)),
            Box::new(expression_view(*d.rht)),
        ),
        Expression::ExpUnary(d) => ExpressionView::Unary(d.opr, Box::new(expression_view(*d.opnd))),
        Expression::ExpCond(d) => ExpressionView::Cond(
            Box::new(expression_view(*d.guard)),
            Box::new(expression_view(*d.then_exp)),
            Box::new(expression_view(*d.else_exp)),
        ),
        Expression::ExpAssign(d) => ExpressionView::Assign(
            Box::new(expression_view(*d.lft)),
            Box::new(expression_view(*d.rht)),
        ),
    }
}

impl View for Expression {
    type V = ExpressionView;

    open spec fn view(&self) -> ExpressionView {
        expression_view(*self)
    }
}

/// The view of a statement: the same tree over views of its parts.
pub open spec fn statement_view(s: Statement) -> StatementView
    decreases s,
{
    match s {
        Statement::StExp(e) => StatementView::Exp(e@),
        Statement::StPrint(e) => StatementView::Print(e@),
        Statement::StBlock(v) => StatementView::Block(
            Seq::new(
                v.len() as nat,
                |i: int|
                    if 0 <= i < v.len() {
                        statement_view(v[i])
                    } else {
                        StatementView::Block(Seq::empty())
                    },
            ),
        ),
        Statement::StIf(d) => StatementView::If(
            d.guard@,
            Box::new(statement_view(*d.th)),
            Box::new(statement_view(*d.el)),
        ),
        Statement::StWhile(d) => StatementView::While(d.guard@, Box::new(statement_view(*d.body))),
    }
}

impl View for Statement {
    type V = StatementView;

    open spec fn view(&self) -> StatementView {
        statement_view(*self)
    }
}

impl View for Declaration {
    type V = DeclarationView;

    open spec fn view(&self) -> DeclarationView {
        match self {
            Declaration::DeclId(id) => DeclarationView::Id(id@),
            Declaration::DeclInit(d) => DeclarationView::Init(d.id@, (*d.src).view()),
        }
    }
}

/// The views of a vector of statements, in order.
pub open spec fn statement_views(v: Seq<Statement>) -> Seq<StatementView> {
    Seq::new(v.len(), |i: int| v[i].view())
}

/// The views of a vector of declarations, in order.
pub open spec fn declaration_views(v: Seq<Declaration>) -> Seq<DeclarationView> {
    Seq::new(v.len(), |i: int| v[i].view())
}

/// The views of a vector of top-level elements, in order.
pub open spec fn source_element_views(v: Seq<SourceElement>) -> Seq<SourceElementView> {
    Seq::new(v.len(), |i: int| v[i].view())
}

impl View for SourceElement {
    type V = SourceElementView;

    open spec fn view(&self) -> SourceElementView {
        match self {
            SourceElement::Stmt(s) => SourceElementView::Stmt(s.view()),
            SourceElement::VarDecl(v) => SourceElementView::VarDecl(declaration_views(v@)),
        }
    }
}

impl View for Program {
    type V = ProgramView;

    open spec fn view(&self) -> ProgramView {
        match self {
            Program::Prog(v) => ProgramView { elements: source_element_views(v@) },
        }
    }
}

/// The view of a block is the sequence of the views of its statements.
pub proof fn lemma_block_view(v: Vec<Statement>)
    ensures
        Statement::StBlock(v).view() == StatementView::Block(statement_views(v@)),
{
    reveal_with_fuel(statement_view, 2);
    let b = Statement::StBlock(v).view();
    assert(b is Block);
    let a = b->Block_0;
    assert(a.len() == v.len());
    assert forall|i: int| 0 <= i < a.len() implies a[i] == statement_views(v@)[i] by {
        assert(a[i] == v[i].view());
    }
    assert(a =~= statement_views(v@));
}

impl Clone for Expression {
    /// A copy of the tree.
    fn clone(&self) -> (res: Expression)
        ensures
            res@ == self@,
        decreases self,
    {
        match self {
            Expression::ExpNum(n) => Expression::ExpNum(*n),
            Expression::ExpString(s) => Expression::ExpString(s.clone()),
            Expression::ExpTrue => Expression::ExpTrue,
            Expression::ExpFalse => Expression::ExpFalse,
            Expression::ExpUndefined => Expression::ExpUndefined,
            Expression::ExpId(s) => Expression::ExpId(s.clone()),
            Expression::ExpBinary(d) => Expression::ExpBinary(
                ExpBinaryData {
                    opr: d.opr,
                    lft: Box::new((*d.lft).clone()),
                    rht: Box::new((*d.rht).clone()),
                },
            ),
            Expression::ExpUnary(d) => Expression::ExpUnary(
                ExpUnaryData { opr: d.opr, opnd: Box::new((*d.opnd).clone()) },
            ),
            Expression::ExpCond(d) => Expression::ExpCond(
                ExpCondData {
                    guard: Box::new((*d.guard).clone()),
                    then_exp: Box::new((*d.then_exp).clone()),
                    else_exp: Box::new((*d.else_exp).clone()),
                },
            ),
            Expression::ExpAssign(d) => Expression::ExpAssign(
                ExpAssignData { lft: Box::new((*d.lft).clone()), rht: Box::new((*d.rht).clone()) },
            ),
        }
    }
}

impl Clone for Statement {
    /// A copy of the tree.
    #[verifier::loop_isolation(false)]
    fn clone(&self) -> (res: Statement)
        ensures
            res@ == self@,
        decreases self,
    {
        match self {
            Statement::StExp(e) => Statement::StExp(e.clone()),
            Statement::StPrint(e) => Statement::StPrint(e.clone()),
            Statement::StBlock(stmts) => {
                let mut copies: Vec<Statement> = Vec::new();
                let mut i: usize = 0;
                while i < stmts.len()
                    invariant
                        0 <= i <= stmts.len(),
                        copies.len() == i,
                        forall|j: int| 0 <= j < i ==> (#[trigger] copies[j])@ == stmts[j]@,
                    decreases stmts.len() - i,
                {
                    copies.push(stmts[i].clone());
                    i = i + 1;
                }
                proof {
                    lemma_block_view(*stmts);
                    lemma_block_view(copies);
                    assert(statement_views(copies@) =~= statement_views(stmts@));
                }
                Statement::StBlock(copies)
            },
            Statement::StIf(d) => Statement::StIf(
                StIfData {
                    guard: d.guard.clone(),
                    th: Box::new((*d.th).clone()),
                    el: Box::new((*d.el).clone()),
                },
            ),
            Statement::StWhile(d) => Statement::StWhile(
                StWhileData { guard: d.guard.clone(), body: Box::new((*d.body).clone()) },
            ),
        }
    }
}

impl Clone for Declaration {
    /// A copy of the declaration.
    fn clone(&self) -> (res: Declaration)
        ensures
            res@ == self@,
    {
        match self {
            Declaration::DeclId(id) => Declaration::DeclId(id.clone()),
            Declaration::DeclInit(d) => Declaration::DeclInit(
                DeclInitData { id: d.id.clone(), src: Box::new((*d.src).clone()) },
            ),
        }
    }
}

impl Clone for SourceElement {
    /// A copy of the element.
    fn clone(&self) -> (res: SourceElement)
        ensures
            res@ == self@,
    {
        match self {
            SourceElement::Stmt(s) => SourceElement::Stmt(s.clone()),
            SourceElement::VarDecl(decls) => {
                let mut copies: Vec<Declaration> = Vec::new();
                let mut i: usize = 0;
                while i < decls.len()
                    invariant
                        0 <= i <= decls.len(),
                        copies.len() == i,
                        forall|j: int| 0 <= j < i ==> (#[trigger] copies[j])@ == decls[j]@,
                    decreases decls.len() - i,
                {
                    copies.push(decls[i].clone());
                    i = i + 1;
                }
                proof {
                    assert(declaration_views(copies@) =~= declaration_views(decls@));
                }
                SourceElement::VarDecl(copies)
            },
        }
    }
}

impl Clone for Program {
    /// A copy of the program.
    fn clone(&self) -> (res: Program)
        ensures
            res@ == self@,
    {
        match self {
            Program::Prog(elems) => {
                let mut copies: Vec<SourceElement> = Vec::new();
                let mut i: usize = 0;
                while i < elems.len()
                    invariant
                        0 <= i <= elems.len(),
                        copies.len() == i,
                        forall|j: int| 0 <= j < i ==> (#[trigger] copies[j])@ == elems[j]@,
                    decreases elems.len() - i,
                {
                    copies.push(elems[i].clone());
                    i = i + 1;
                }
                proof {
                    assert(source_element_views(copies@) =~= source_element_views(elems@));
                }
                Program::Prog(copies)
            },
        }
    }
}

impl Clone for ExpBinaryData {
    /// A copy of the operator and of both operands.
    fn clone(&self) -> (res: ExpBinaryData)
        ensures
            res.opr == self.opr,
            (*res.lft)@ == (*self.lft)@,
            (*res.rht)@ == (*self.rht)@,
    {
        ExpBinaryData {
            opr: self.opr,
            lft: Box::new((*self.lft).clone()),
            rht: Box::new((*self.rht).clone()),
        }
    }
}

impl Clone for ExpUnaryData {
    /// A copy of the operator and of the operand.
    fn clone(&self) -> (res: ExpUnaryData)
        ensures
            res.opr == self.opr,
            (*res.opnd)@ == (*self.opnd)@,
    {
        ExpUnaryData { opr: self.opr, opnd: Box::new((*self.opnd).clone()) }
    }
}

impl Clone for ExpCondData {
    /// A copy of the guard and of both branches.
    fn clone(&self) -> (res: ExpCondData)
        ensures
            (*res.guard)@ == (*self.guard)@,
            (*res.then_exp)@ == (*self.then_exp)@,
            (*res.else_exp)@ == (*self.else_exp)@,
    {
        ExpCondData {
            guard: Box::new((*self.guard).clone()),
            then_exp: Box::new((*self.then_exp).clone()),
            else_exp: Box::new((*self.else_exp).clone()),
        }
    }
}

impl Clone for ExpAssignData {
    /// A copy of the target and of the source.
    fn clone(&self) -> (res: ExpAssignData)
        ensures
            (*res.lft)@ == (*self.lft)@,
            (*res.rht)@ == (*self.rht)@,
    {
        ExpAssignData { lft: Box::new((*self.lft).clone()), rht: Box::new((*self.rht).clone()) }
    }
}

impl Clone for StIfData {
    /// A copy of the guard and of both branches.
    fn clone(&self) -> (res: StIfData)
        ensures
            res.guard@ == self.guard@,
            (*res.th)@ == (*self.th)@,
            (*res.el)@ == (*self.el)@,
    {
        StIfData {
            guard: self.guard.clone(),
            th: Box::new((*self.th).clone()),
            el: Box::new((*self.el).clone()),
        }
    }
}

impl Clone for StWhileData {
    /// A copy of the guard and of the body.
    fn clone(&self) -> (res: StWhileData)
        ensures
            res.guard@ == self.guard@,
            (*res.body)@ == (*self.body)@,
    {
        StWhileData { guard: self.guard.clone(), body: Box::new((*self.body).clone()) }
    }
}

impl Clone for DeclInitData {
    /// A copy of the name and of the initializer.
    fn clone(&self) -> (res: DeclInitData)
        ensures
            res.id@ == self.id@,
            (*res.src)@ == (*self.src)@,
    {
        DeclInitData { id: self.id.clone(), src: Box::new((*self.src).clone()) }
    }
}

} // verus!
