//! The syntax tree: a strict hierarchy with exclusive ownership, built once
//! per parse and treated as immutable afterwards. Each node kind carries a
//! mathematical view used by the parser's and the generator's contracts.

use vstd::prelude::*;

verus! {

#[derive(Debug)]
pub struct Program {
    pub functions: Vec<Function>,
}

#[derive(Debug)]
pub struct Function {
    pub return_type: Type,
    pub name: String,
    pub parameters: Vec<Parameter>,
    pub block: Block,
}

#[derive(Debug)]
pub struct Parameter {
    pub name: String,
    pub param_type: Type,
}

#[derive(Debug)]
pub struct Type {
    pub name: String,
}

#[derive(Debug)]
pub struct Block {
    pub statements: Vec<Statement>,
}

#[derive(Debug)]
pub enum Statement {
    Return(Box<Expr>),
}

#[derive(Debug)]
pub enum Expr {
    NumLiteral(String),
}

/// The mathematical view of a program.
#[verifier::ext_equal]
pub struct ProgramV {
    pub functions: Seq<FunctionV>,
}

/// The mathematical view of a function.
#[verifier::ext_equal]
pub struct FunctionV {
    pub return_type: TypeV,
    pub name: Seq<char>,
    pub parameters: Seq<ParameterV>,
    pub block: BlockV,
}

/// The mathematical view of a parameter.
#[verifier::ext_equal]
pub struct ParameterV {
    pub name: Seq<char>,
    pub param_type: TypeV,
}

/// The mathematical view of a type name.
#[verifier::ext_equal]
pub struct TypeV {
    pub name: Seq<char>,
}

/// The mathematical view of a block.
#[verifier::ext_equal]
pub struct BlockV {
    pub statements: Seq<StatementV>,
}

/// The mathematical view of a statement.
#[verifier::ext_equal]
pub enum StatementV {
    Return(ExprV),
}

/// The mathematical view of an expression.
#[verifier::ext_equal]
pub enum ExprV {
    NumLiteral(Seq<char>),
}

impl DeepView for Program {
    type V = ProgramV;

    open spec fn deep_view(&self) -> ProgramV {
        ProgramV { functions: self.functions.deep_view() }
    }
}

impl DeepView for Function {
    type V = FunctionV;

    open spec fn deep_view(&self) -> FunctionV {
        FunctionV {
            return_type: self.return_type.deep_view(),
            name: self.name@,
            parameters: self.parameters.deep_view(),
            block: self.block.deep_view(),
        }
    }
}

impl DeepView for Parameter {
    type V = ParameterV;

    open spec fn deep_view(&self) -> ParameterV {
        ParameterV { name: self.name@, param_type: self.param_type.deep_view() }
    }
}

impl DeepView for Type {
    type V = TypeV;

    open spec fn deep_view(&self) -> TypeV {
        TypeV { name: self.name@ }
    }
}

impl DeepView for Block {
    type V = BlockV;

    open spec fn deep_view(&self) -> BlockV {
        BlockV { statements: self.statements.deep_view() }
    }
}

impl DeepView for Statement {
    type V = StatementV;

    open spec fn deep_view(&self) -> StatementV {
        match self {
            Statement::Return(e) => StatementV::Return(e.deep_view()),
        }
    }
}

impl DeepView for Expr {
    type V = ExprV;

    open spec fn deep_view(&self) -> ExprV {
        match self {
            Expr::NumLiteral(s) => ExprV::NumLiteral(s@),
        }
    }
}

impl PartialEq for Expr {
    fn eq(&self, other: &Expr) -> (r: bool) {
        match (self, other) {
            (Expr::NumLiteral(a), Expr::NumLiteral(b)) => a.eq(b),
        }
    }
}

impl vstd::std_specs::cmp::PartialEqSpecImpl for Expr {
    open spec fn obeys_eq_spec() -> bool {
        true
    }

    open spec fn eq_spec(&self, other: &Expr) -> bool {
        self.deep_view() == other.deep_view()
    }
}

impl PartialEq for Statement {
    fn eq(&self, other: &Statement) -> (r: bool) {
        match (self, other) {
            (Statement::Return(a), Statement::Return(b)) => (&**a).eq(&**b),
        }
    }
}

impl vstd::std_specs::cmp::PartialEqSpecImpl for Statement {
    open spec fn obeys_eq_spec() -> bool {
        true
    }

    open spec fn eq_spec(&self, other: &Statement) -> bool {
        self.deep_view() == other.deep_view()
    }
}

fn statements_eq(a: &Vec<Statement>, b: &Vec<Statement>) -> (r: bool)
    ensures
        r == (a.deep_view() == b.deep_view()),
{
    if a.len() != b.len() {
        proof {
            assert(a.deep_view().len() == a@.len());
            assert(b.deep_view().len() == b@.len());
        }
        return false;
    }
    let n = a.len();
    let mut i: usize = 0;
    while i < n
        invariant
            n == a@.len() == b@.len(),
            i <= n,
            forall|k: int| 0 <= k < i ==> a.deep_view()[k] == b.deep_view()[k],
        decreases n - i,
    {
        if !a[i].eq(&b[i]) {
            proof {
                assert(a.deep_view()[i as int] != b.deep_view()[i as int]);
            }
            return false;
        }
        i = i + 1;
    }
    proof {
        assert(a.deep_view() =~= b.deep_view());
    }
    true
}

impl PartialEq for Block {
    fn eq(&self, other: &Block) -> (r: bool) {
        statements_eq(&self.statements, &other.statements)
    }
}

impl vstd::std_specs::cmp::PartialEqSpecImpl for Block {
    open spec fn obeys_eq_spec() -> bool {
        true
    }

    open spec fn eq_spec(&self, other: &Block) -> bool {
        self.deep_view() == other.deep_view()
    }
}

impl PartialEq for Type {
    fn eq(&self, other: &Type) -> (r: bool) {
        self.name.eq(&other.name)
    }
}

impl vstd::std_specs::cmp::PartialEqSpecImpl for Type {
    open spec fn obeys_eq_spec() -> bool {
        true
    }

    open spec fn eq_spec(&self, other: &Type) -> bool {
        self.deep_view() == other.deep_view()
    }
}

impl PartialEq for Parameter {
    fn eq(&self, other: &Parameter) -> (r: bool) {
        self.name.eq(&other.name) && self.param_type == other.param_type
    }
}

impl vstd::std_specs::cmp::PartialEqSpecImpl for Parameter {
    open spec fn obeys_eq_spec() -> bool {
        true
    }

    open spec fn eq_spec(&self, other: &Parameter) -> bool {
        self.deep_view() == other.deep_view()
    }
}

fn parameters_eq(a: &Vec<Parameter>, b: &Vec<Parameter>) -> (r: bool)
    ensures
        r == (a.deep_view() == b.deep_view()),
{
    if a.len() != b.len() {
        proof {
            assert(a.deep_view().len() == a@.len());
            assert(b.deep_view().len() == b@.len());
        }
        return false;
    }
    let n = a.len();
    let mut i: usize = 0;
    while i < n
        invariant
            n == a@.len() == b@.len(),
            i <= n,
            forall|k: int| 0 <= k < i ==> a.deep_view()[k] == b.deep_view()[k],
        decreases n - i,
    {
        if !a[i].eq(&b[i]) {
            proof {
                assert(a.deep_view()[i as int] != b.deep_view()[i as int]);
            }
            return false;
        }
        i = i + 1;
    }
    proof {
        assert(a.deep_view() =~= b.deep_view());
    }
    true
}

impl PartialEq for Function {
    fn eq(&self, other: &Function) -> (r: bool) {
        self.return_type == other.return_type && self.name.eq(&other.name) && parameters_eq(
            &self.parameters,
            &other.parameters,
        ) && self.block == other.block
    }
}

impl vstd::std_specs::cmp::PartialEqSpecImpl for Function {
    open spec fn obeys_eq_spec() -> bool {
        true
    }

    open spec fn eq_spec(&self, other: &Function) -> bool {
        self.deep_view() == other.deep_view()
    }
}

fn functions_eq(a: &Vec<Function>, b: &Vec<Function>) -> (r: bool)
    ensures
        r == (a.deep_view() == b.deep_view()),
{
    if a.len() != b.len() {
        proof {
            assert(a.deep_view().len() == a@.len());
            assert(b.deep_view().len() == b@.len());
        }
        return false;
    }
    let n = a.len();
    let mut i: usize = 0;
    while i < n
        invariant
            n == a@.len() == b@.len(),
            i <= n,
            forall|k: int| 0 <= k < i ==> a.deep_view()[k] == b.deep_view()[k],
        decreases n - i,
    {
        if !a[i].eq(&b[i]) {
            proof {
                assert(a.deep_view()[i as int] != b.deep_view()[i as int]);
            }
            return false;
        }
        i = i + 1;
    }
    proof {
        assert(a.deep_view() =~= b.deep_view());
    }
    true
}

impl PartialEq for Program {
    fn eq(&self, other: &Program) -> (r: bool) {
        functions_eq(&self.functions, &other.functions)
    }
}

impl vstd::std_specs::cmp::PartialEqSpecImpl for Program {
    open spec fn obeys_eq_spec() -> bool {
        true
    }

    open spec fn eq_spec(&self, other: &Program) -> bool {
        self.deep_view() == other.deep_view()
    }
}

} // verus!
