use vstd::prelude::*;

verus! {

/// The types of the Oxide language.
#[derive(Debug, PartialEq)]
pub enum Type {
    Int,
    Float,
    String,
    Bool,
    Void,
    Never,
    Null,
    /// `T?`
    Nullable(Box<Type>),
    /// `T[]`
    Array(Box<Type>),
}

/// The source text of a type: `int`, `string?`, `int[]`, ...
pub open spec fn type_text(t: Type) -> Seq<char>
    decreases t,
{
    match t {
        Type::Int => "int"@,
        Type::Float => "float"@,
        Type::String => "string"@,
        Type::Bool => "bool"@,
        Type::Void => "void"@,
        Type::Never => "never"@,
        Type::Null => "null"@,
        Type::Nullable(inner) => type_text(*inner) + "?"@,
        Type::Array(inner) => type_text(*inner) + "[]"@,
    }
}

/// The debug form of a type, as in `Nullable(Int)`.
pub open spec fn type_debug(t: Type) -> Seq<char>
    decreases t,
{
    match t {
        Type::Int => "Int"@,
        Type::Float => "Float"@,
        Type::String => "String"@,
        Type::Bool => "Bool"@,
        Type::Void => "Void"@,
        Type::Never => "Never"@,
        Type::Null => "Null"@,
        Type::Nullable(inner) => "Nullable("@ + type_debug(*inner) + ")"@,
        Type::Array(inner) => "Array("@ + type_debug(*inner) + ")"@,
    }
}

impl Type {
    /// The source text of the type (`int?`, `string[]`, ...).
    pub fn to_string(&self) -> (s: String)
        ensures
            s@ == type_text(*self),
        decreases self,
    {
        match self {
            Type::Int => String::from_str("int"),
            Type::Float => String::from_str("float"),
            Type::String => String::from_str("string"),
            Type::Bool => String::from_str("bool"),
            Type::Void => String::from_str("void"),
            Type::Never => String::from_str("never"),
            Type::Null => String::from_str("null"),
            Type::Nullable(inner) => {
                let mut s = inner.to_string();
                s.append("?");
                s
            },
            Type::Array(inner) => {
                let mut s = inner.to_string();
                s.append("[]");
                s
            },
        }
    }

    /// The debug form of the type (`Nullable(Int)`, ...).
    pub fn debug_string(&self) -> (s: String)
        ensures
            s@ == type_debug(*self),
        decreases self,
    {
        match self {
            Type::Int => String::from_str("Int"),
            Type::Float => String::from_str("Float"),
            Type::String => String::from_str("String"),
            Type::Bool => String::from_str("Bool"),
            Type::Void => String::from_str("Void"),
            Type::Never => String::from_str("Never"),
            Type::Null => String::from_str("Null"),
            Type::Nullable(inner) => {
                let mut s = String::from_str("Nullable(");
                let i = inner.debug_string();
                s.append(i.as_str());
                s.append(")");
                s
            },
            Type::Array(inner) => {
                let mut s = String::from_str("Array(");
                let i = inner.debug_string();
                s.append(i.as_str());
                s.append(")");
                s
            },
        }
    }

    /// A copy of the type.
    pub fn duplicate(&self) -> (r: Type)
        ensures
            r == *self,
        decreases self,
    {
        match self {
            Type::Int => Type::Int,
            Type::Float => Type::Float,
            Type::String => Type::String,
            Type::Bool => Type::Bool,
            Type::Void => Type::Void,
            Type::Never => Type::Never,
            Type::Null => Type::Null,
            Type::Nullable(inner) => Type::Nullable(Box::new(inner.duplicate())),
            Type::Array(inner) => Type::Array(Box::new(inner.duplicate())),
        }
    }

    /// Whether two types are the same type.
    pub fn same(&self, other: &Type) -> (b: bool)
        ensures
            b == (*self == *other),
        decreases self,
    {
        match (self, other) {
            (Type::Int, Type::Int) => true,
            (Type::Float, Type::Float) => true,
            (Type::String, Type::String) => true,
            (Type::Bool, Type::Bool) => true,
            (Type::Void, Type::Void) => true,
            (Type::Never, Type::Never) => true,
            (Type::Null, Type::Null) => true,
            (Type::Nullable(a), Type::Nullable(b)) => a.same(b),
            (Type::Array(a), Type::Array(b)) => a.same(b),
            _ => false,
        }
    }
}

impl Clone for Type {
    fn clone(&self) -> (r: Self)
        ensures
            r == *self,
    {
        self.duplicate()
    }
}

/// A floating-point literal, held as the two texts that the compiler prints of
/// it: its display form (emitted into C) and its debug form (used in messages).
#[derive(Debug, PartialEq, Eq, Hash)]
pub struct FloatLit {
    pub display: String,
    pub debug: String,
}

impl FloatLit {
    /// A copy of the literal.
    pub fn duplicate(&self) -> (r: FloatLit)
        ensures
            r == *self,
    {
        FloatLit { display: self.display.clone(), debug: self.debug.clone() }
    }
}

impl Clone for FloatLit {
    fn clone(&self) -> (r: Self)
        ensures
            r == *self,
    {
        self.duplicate()
    }
}

#[derive(Debug)]
pub enum Literal {
    Int(i64),
    Float(FloatLit),
    String(String),
    Bool(bool),
    Null,
}

#[derive(Debug, Clone, Copy, PartialEq, Eq)]
pub enum BinaryOp {
    Add,
    Sub,
    Mul,
    Div,
    Mod,
    Pow,
    Eq,
    Neq,
    Lt,
    Gt,
    Lte,
    Gte,
    And,
    Or,
    /// `..`
    Range,
    /// `..=`
    RangeInclusive,
    /// `??`
    NullCoalesce,
}

#[derive(Debug, Clone, Copy, PartialEq, Eq)]
pub enum UnaryOp {
    /// `!`
    Not,
    /// `-x`
    Neg,
    /// `x++`
    PostIncrement,
    /// `x--`
    PostDecrement,
}

#[derive(Debug)]
pub enum StringPart {
    Literal(String),
    Expr(Box<Expr>),
}

#[derive(Debug)]
pub enum Expr {
    Literal(Literal),
    Ident(String),
    BinaryOp { op: BinaryOp, left: Box<Expr>, right: Box<Expr> },
    UnaryOp { op: UnaryOp, expr: Box<Expr> },
    Call { name: String, args: Vec<Expr> },
    Index { array: Box<Expr>, index: Box<Expr> },
    FieldAccess { object: Box<Expr>, field: String },
    MethodCall { object: Box<Expr>, method: String, args: Vec<Expr> },
    StringInterp(Vec<StringPart>),
}

#[derive(Debug)]
pub enum Stmt {
    /// `ty` is `None` when the type is inferred (`x := 5;`).
    VarDecl { ty: Option<Type>, name: String, value: Expr, is_const: bool },
    Assign { name: String, value: Expr },
    If { condition: Expr, then_block: Vec<Stmt>, else_block: Option<Vec<Stmt>> },
    While { condition: Expr, body: Vec<Stmt> },
    For { init: Box<Stmt>, condition: Expr, step: Box<Stmt>, body: Vec<Stmt> },
    ForRange { ty: Option<Type>, name: String, range: Expr, body: Vec<Stmt> },
    Return(Option<Expr>),
    Expr(Expr),
}

#[derive(Debug)]
pub struct Param {
    pub ty: Type,
    pub name: String,
    /// `&`
    pub by_ref: bool,
    /// `&const`
    pub by_const_ref: bool,
}

#[derive(Debug)]
pub enum TopLevel {
    Function { return_ty: Type, name: String, params: Vec<Param>, body: Vec<Stmt> },
    StructDecl { name: String, fields: Vec<(Type, String)>, implements: Option<String> },
    InterfaceDecl {
        name: String,
        fields: Vec<(Type, String)>,
        methods: Vec<(Type, String, Vec<Param>)>,
    },
    MethodDecl {
        receiver_ty: String,
        receiver_name: String,
        by_ref: bool,
        return_ty: Type,
        name: String,
        params: Vec<Param>,
        body: Vec<Stmt>,
    },
}

#[derive(Debug)]
pub struct Program {
    pub items: Vec<TopLevel>,
}


// ---------------------------------------------------------------------------
// Mathematical views of the syntax tree: lists become sequences.
// ---------------------------------------------------------------------------

pub enum StringPartV {
    Literal(String),
    Expr(Box<ExprV>),
}

pub enum ExprV {
    Literal(Literal),
    Ident(String),
    BinaryOp { op: BinaryOp, left: Box<ExprV>, right: Box<ExprV> },
    UnaryOp { op: UnaryOp, expr: Box<ExprV> },
    Call { name: String, args: Seq<ExprV> },
    Index { array: Box<ExprV>, index: Box<ExprV> },
    FieldAccess { object: Box<ExprV>, field: String },
    MethodCall { object: Box<ExprV>, method: String, args: Seq<ExprV> },
    StringInterp(Seq<StringPartV>),
}

pub enum StmtV {
    VarDecl { ty: Option<Type>, name: String, value: ExprV, is_const: bool },
    Assign { name: String, value: ExprV },
    If { condition: ExprV, then_block: Seq<StmtV>, else_block: Option<Seq<StmtV>> },
    While { condition: ExprV, body: Seq<StmtV> },
    For { init: Box<StmtV>, condition: ExprV, step: Box<StmtV>, body: Seq<StmtV> },
    ForRange { ty: Option<Type>, name: String, range: ExprV, body: Seq<StmtV> },
    Return(Option<ExprV>),
    Expr(ExprV),
}

pub enum TopLevelV {
    Function { return_ty: Type, name: String, params: Seq<Param>, body: Seq<StmtV> },
    StructDecl { name: String, fields: Seq<(Type, String)>, implements: Option<String> },
    InterfaceDecl { name: String, fields: Seq<(Type, String)>, methods: Seq<(Type, String, Seq<Param>)> },
    MethodDecl {
        receiver_ty: String,
        receiver_name: String,
        by_ref: bool,
        return_ty: Type,
        name: String,
        params: Seq<Param>,
        body: Seq<StmtV>,
    },
}

pub struct ProgramV {
    pub items: Seq<TopLevelV>,
}

pub open spec fn expr_view(e: Expr) -> ExprV
    decreases e, 1nat,
{
    match e {
        Expr::Literal(l) => ExprV::Literal(l),
        Expr::Ident(n) => ExprV::Ident(n),
        Expr::BinaryOp { op, left, right } => ExprV::BinaryOp {
            op,
            left: Box::new(expr_view(*left)),
            right: Box::new(expr_view(*right)),
        },
        Expr::UnaryOp { op, expr } => ExprV::UnaryOp { op, expr: Box::new(expr_view(*expr)) },
        Expr::Call { name, args } => ExprV::Call { name, args: exprs_view(args@) },
        Expr::Index { array, index } => ExprV::Index {
            array: Box::new(expr_view(*array)),
            index: Box::new(expr_view(*index)),
        },
        Expr::FieldAccess { object, field } => ExprV::FieldAccess { object: Box::new(expr_view(*object)), field },
        Expr::MethodCall { object, method, args } => ExprV::MethodCall {
            object: Box::new(expr_view(*object)),
            method,
            args: exprs_view(args@),
        },
        Expr::StringInterp(parts) => ExprV::StringInterp(parts_view(parts@)),
    }
}

pub open spec fn exprs_view(es: Seq<Expr>) -> Seq<ExprV>
    decreases es, 0nat,
{
    if es.len() == 0 {
        Seq::empty()
    } else {
        exprs_view(es.drop_last()).push(expr_view(es.last()))
    }
}

pub open spec fn parts_view(ps: Seq<StringPart>) -> Seq<StringPartV>
    decreases ps, 0nat,
{
    if ps.len() == 0 {
        Seq::empty()
    } else {
        parts_view(ps.drop_last()).push(
            match ps.last() {
                StringPart::Literal(s) => StringPartV::Literal(s),
                StringPart::Expr(e) => StringPartV::Expr(Box::new(expr_view(*e))),
            },
        )
    }
}

pub open spec fn stmt_view(s: Stmt) -> StmtV
    decreases s, 1nat,
{
    match s {
        Stmt::VarDecl { ty, name, value, is_const } => StmtV::VarDecl { ty, name, value: expr_view(value), is_const },
        Stmt::Assign { name, value } => StmtV::Assign { name, value: expr_view(value) },
        Stmt::If { condition, then_block, else_block } => StmtV::If {
            condition: expr_view(condition),
            then_block: stmts_view(then_block@),
            else_block: match else_block {
                Some(b) => Some(stmts_view(b@)),
                None => None,
            },
        },
        Stmt::While { condition, body } => StmtV::While { condition: expr_view(condition), body: stmts_view(body@) },
        Stmt::For { init, condition, step, body } => StmtV::For {
            init: Box::new(stmt_view(*init)),
            condition: expr_view(condition),
            step: Box::new(stmt_view(*step)),
            body: stmts_view(body@),
        },
        Stmt::ForRange { ty, name, range, body } => StmtV::ForRange {
            ty,
            name,
            range: expr_view(range),
            body: stmts_view(body@),
        },
        Stmt::Return(e) => StmtV::Return(
            match e {
                Some(e) => Some(expr_view(e)),
                None => None,
            },
        ),
        Stmt::Expr(e) => StmtV::Expr(expr_view(e)),
    }
}

pub open spec fn stmts_view(ss: Seq<Stmt>) -> Seq<StmtV>
    decreases ss, 0nat,
{
    if ss.len() == 0 {
        Seq::empty()
    } else {
        stmts_view(ss.drop_last()).push(stmt_view(ss.last()))
    }
}

pub open spec fn top_level_view(t: TopLevel) -> TopLevelV {
    match t {
        TopLevel::Function { return_ty, name, params, body } => TopLevelV::Function {
            return_ty,
            name,
            params: params@,
            body: stmts_view(body@),
        },
        TopLevel::StructDecl { name, fields, implements } => TopLevelV::StructDecl { name, fields: fields@, implements },
        TopLevel::InterfaceDecl { name, fields, methods } => TopLevelV::InterfaceDecl {
            name,
            fields: fields@,
            methods: methods_view(methods@),
        },
        TopLevel::MethodDecl { receiver_ty, receiver_name, by_ref, return_ty, name, params, body } =>
            TopLevelV::MethodDecl {
            receiver_ty,
            receiver_name,
            by_ref,
            return_ty,
            name,
            params: params@,
            body: stmts_view(body@),
        },
    }
}

pub open spec fn top_levels_view(ts: Seq<TopLevel>) -> Seq<TopLevelV> {
    ts.map_values(|t: TopLevel| top_level_view(t))
}

impl View for Expr {
    type V = ExprV;

    open spec fn view(&self) -> ExprV {
        expr_view(*self)
    }
}

impl View for Stmt {
    type V = StmtV;

    open spec fn view(&self) -> StmtV {
        stmt_view(*self)
    }
}

impl View for TopLevel {
    type V = TopLevelV;

    open spec fn view(&self) -> TopLevelV {
        top_level_view(*self)
    }
}

impl View for Program {
    type V = ProgramV;

    open spec fn view(&self) -> ProgramV {
        ProgramV { items: top_levels_view(self.items@) }
    }
}


// ---------------------------------------------------------------------------
// Copies of syntax trees.
// ---------------------------------------------------------------------------

impl Literal {
    /// A copy of the literal.
    pub fn duplicate(&self) -> (r: Literal)
        ensures
            r == *self,
    {
        match self {
            Literal::Int(n) => Literal::Int(*n),
            Literal::Float(f) => Literal::Float(f.duplicate()),
            Literal::String(s) => Literal::String(s.clone()),
            Literal::Bool(b) => Literal::Bool(*b),
            Literal::Null => Literal::Null,
        }
    }
}

impl Clone for Literal {
    fn clone(&self) -> (r: Self)
        ensures
            r == *self,
    {
        self.duplicate()
    }
}

impl Param {
    /// A copy of the parameter.
    pub fn duplicate(&self) -> (r: Param)
        ensures
            r == *self,
    {
        Param {
            ty: self.ty.duplicate(),
            name: self.name.clone(),
            by_ref: self.by_ref,
            by_const_ref: self.by_const_ref,
        }
    }
}

impl Clone for Param {
    fn clone(&self) -> (r: Self)
        ensures
            r == *self,
    {
        self.duplicate()
    }
}

fn params_duplicate(v: &Vec<Param>) -> (r: Vec<Param>)
    ensures
        r@ == v@,
{
    let mut r: Vec<Param> = Vec::new();
    let mut i: usize = 0;
    while i < v.len()
        invariant
            i <= v.len(),
            r@ == v@.take(i as int),
        decreases v.len() - i,
    {
        r.push(v[i].duplicate());
        i = i + 1;
        assert(r@ =~= v@.take(i as int));
    }
    assert(v@.take(v.len() as int) =~= v@);
    r
}

fn fields_duplicate(v: &Vec<(Type, String)>) -> (r: Vec<(Type, String)>)
    ensures
        r@ == v@,
{
    let mut r: Vec<(Type, String)> = Vec::new();
    let mut i: usize = 0;
    while i < v.len()
        invariant
            i <= v.len(),
            r@ == v@.take(i as int),
        decreases v.len() - i,
    {
        r.push((v[i].0.duplicate(), v[i].1.clone()));
        i = i + 1;
        assert(r@ =~= v@.take(i as int));
    }
    assert(v@.take(v.len() as int) =~= v@);
    r
}

/// The view of an interface's method signatures.
pub open spec fn methods_view(ms: Seq<(Type, String, Vec<Param>)>) -> Seq<(Type, String, Seq<Param>)> {
    ms.map_values(|m: (Type, String, Vec<Param>)| (m.0, m.1, m.2@))
}

fn methods_duplicate(v: &Vec<(Type, String, Vec<Param>)>) -> (r: Vec<(Type, String, Vec<Param>)>)
    ensures
        methods_view(r@) == methods_view(v@),
{
    let mut r: Vec<(Type, String, Vec<Param>)> = Vec::new();
    let mut i: usize = 0;
    while i < v.len()
        invariant
            i <= v.len(),
            r@.len() == i,
            forall|k: int|
                0 <= k < i ==> (#[trigger] r@[k]).0 == v@[k].0 && r@[k].1 == v@[k].1 && r@[k].2@ == v@[k].2@,
        decreases v.len() - i,
    {
        r.push((v[i].0.duplicate(), v[i].1.clone(), params_duplicate(&v[i].2)));
        i = i + 1;
    }
    assert(methods_view(r@) =~= methods_view(v@));
    r
}

impl Expr {
    /// A copy of the expression.
    pub fn duplicate(&self) -> (r: Expr)
        ensures
            r@ == self@,
        decreases self, 1nat,
    {
        match self {
            Expr::Literal(l) => Expr::Literal(l.duplicate()),
            Expr::Ident(n) => Expr::Ident(n.clone()),
            Expr::BinaryOp { op, left, right } => Expr::BinaryOp {
                op: *op,
                left: Box::new(left.duplicate()),
                right: Box::new(right.duplicate()),
            },
            Expr::UnaryOp { op, expr } => Expr::UnaryOp { op: *op, expr: Box::new(expr.duplicate()) },
            Expr::Call { name, args } => Expr::Call { name: name.clone(), args: exprs_duplicate(args) },
            Expr::Index { array, index } => Expr::Index {
                array: Box::new(array.duplicate()),
                index: Box::new(index.duplicate()),
            },
            Expr::FieldAccess { object, field } => Expr::FieldAccess {
                object: Box::new(object.duplicate()),
                field: field.clone(),
            },
            Expr::MethodCall { object, method, args } => Expr::MethodCall {
                object: Box::new(object.duplicate()),
                method: method.clone(),
                args: exprs_duplicate(args),
            },
            Expr::StringInterp(parts) => Expr::StringInterp(parts_duplicate(parts)),
        }
    }
}

fn exprs_duplicate(v: &Vec<Expr>) -> (r: Vec<Expr>)
    ensures
        exprs_view(r@) == exprs_view(v@),
    decreases v, 0nat,
{
    let mut r: Vec<Expr> = Vec::new();
    let mut i: usize = 0;
    while i < v.len()
        invariant
            i <= v.len(),
            exprs_view(r@) == exprs_view(v@.take(i as int)),
        decreases v.len() - i,
    {
        proof {
            assert(decreases_to!(v => v@[i as int]));
        }
        let e = v[i].duplicate();
        let ghost before = r@;
        r.push(e);
        proof {
            assert(r@.drop_last() =~= before);
            assert(v@.take(i + 1).drop_last() =~= v@.take(i as int));
        }
        i = i + 1;
    }
    assert(v@.take(v.len() as int) =~= v@);
    r
}

fn parts_duplicate(v: &Vec<StringPart>) -> (r: Vec<StringPart>)
    ensures
        parts_view(r@) == parts_view(v@),
    decreases v, 0nat,
{
    let mut r: Vec<StringPart> = Vec::new();
    let mut i: usize = 0;
    while i < v.len()
        invariant
            i <= v.len(),
            parts_view(r@) == parts_view(v@.take(i as int)),
        decreases v.len() - i,
    {
        proof {
            assert(decreases_to!(v => v@[i as int]));
        }
        let part = match &v[i] {
            StringPart::Literal(s) => StringPart::Literal(s.clone()),
            StringPart::Expr(e) => StringPart::Expr(Box::new(e.duplicate())),
        };
        let ghost before = r@;
        r.push(part);
        proof {
            assert(r@.drop_last() =~= before);
            assert(v@.take(i + 1).drop_last() =~= v@.take(i as int));
        }
        i = i + 1;
    }
    assert(v@.take(v.len() as int) =~= v@);
    r
}

impl Stmt {
    /// A copy of the statement.
    pub fn duplicate(&self) -> (r: Stmt)
        ensures
            r@ == self@,
        decreases self, 1nat,
    {
        match self {
            Stmt::VarDecl { ty, name, value, is_const } => Stmt::VarDecl {
                ty: match ty {
                    Some(t) => Some(t.duplicate()),
                    None => None,
                },
                name: name.clone(),
                value: value.duplicate(),
                is_const: *is_const,
            },
            Stmt::Assign { name, value } => Stmt::Assign { name: name.clone(), value: value.duplicate() },
            Stmt::If { condition, then_block, else_block } => Stmt::If {
                condition: condition.duplicate(),
                then_block: stmts_duplicate(then_block),
                else_block: match else_block {
                    Some(b) => Some(stmts_duplicate(b)),
                    None => None,
                },
            },
            Stmt::While { condition, body } => Stmt::While {
                condition: condition.duplicate(),
                body: stmts_duplicate(body),
            },
            Stmt::For { init, condition, step, body } => Stmt::For {
                init: Box::new(init.duplicate()),
                condition: condition.duplicate(),
                step: Box::new(step.duplicate()),
                body: stmts_duplicate(body),
            },
            Stmt::ForRange { ty, name, range, body } => Stmt::ForRange {
                ty: match ty {
                    Some(t) => Some(t.duplicate()),
                    None => None,
                },
                name: name.clone(),
                range: range.duplicate(),
                body: stmts_duplicate(body),
            },
            Stmt::Return(e) => Stmt::Return(
                match e {
                    Some(e) => Some(e.duplicate()),
                    None => None,
                },
            ),
            Stmt::Expr(e) => Stmt::Expr(e.duplicate()),
        }
    }
}

fn stmts_duplicate(v: &Vec<Stmt>) -> (r: Vec<Stmt>)
    ensures
        stmts_view(r@) == stmts_view(v@),
    decreases v, 0nat,
{
    let mut r: Vec<Stmt> = Vec::new();
    let mut i: usize = 0;
    while i < v.len()
        invariant
            i <= v.len(),
            stmts_view(r@) == stmts_view(v@.take(i as int)),
        decreases v.len() - i,
    {
        proof {
            assert(decreases_to!(v => v@[i as int]));
        }
        let st = v[i].duplicate();
        let ghost before = r@;
        r.push(st);
        proof {
            assert(r@.drop_last() =~= before);
            assert(v@.take(i + 1).drop_last() =~= v@.take(i as int));
        }
        i = i + 1;
    }
    assert(v@.take(v.len() as int) =~= v@);
    r
}

impl TopLevel {
    /// A copy of the item.
    pub fn duplicate(&self) -> (r: TopLevel)
        ensures
            r@ == self@,
    {
        match self {
            TopLevel::Function { return_ty, name, params, body } => TopLevel::Function {
                return_ty: return_ty.duplicate(),
                name: name.clone(),
                params: params_duplicate(params),
                body: stmts_duplicate(body),
            },
            TopLevel::StructDecl { name, fields, implements } => TopLevel::StructDecl {
                name: name.clone(),
                fields: fields_duplicate(fields),
                implements: match implements {
                    Some(i) => Some(i.clone()),
                    None => None,
                },
            },
            TopLevel::InterfaceDecl { name, fields, methods } => TopLevel::InterfaceDecl {
                name: name.clone(),
                fields: fields_duplicate(fields),
                methods: methods_duplicate(methods),
            },
            TopLevel::MethodDecl { receiver_ty, receiver_name, by_ref, return_ty, name, params, body } =>
                TopLevel::MethodDecl {
                receiver_ty: receiver_ty.clone(),
                receiver_name: receiver_name.clone(),
                by_ref: *by_ref,
                return_ty: return_ty.duplicate(),
                name: name.clone(),
                params: params_duplicate(params),
                body: stmts_duplicate(body),
            },
        }
    }
}

impl Program {
    /// A copy of the program.
    pub fn duplicate(&self) -> (r: Program)
        ensures
            r@ == self@,
    {
        let mut items: Vec<TopLevel> = Vec::new();
        let mut i: usize = 0;
        while i < self.items.len()
            invariant
                i <= self.items.len(),
                items@.len() == i,
                forall|k: int| 0 <= k < i ==> (#[trigger] items@[k])@ == self.items@[k]@,
            decreases self.items.len() - i,
        {
            items.push(self.items[i].duplicate());
            i = i + 1;
        }
        assert(top_levels_view(items@) =~= top_levels_view(self.items@));
        Program { items }
    }
}

impl Clone for StringPart {
    fn clone(&self) -> (r: Self)
        ensures
            parts_view(seq![r]) == parts_view(seq![*self]),
    {
        let r = match self {
            StringPart::Literal(s) => StringPart::Literal(s.clone()),
            StringPart::Expr(e) => StringPart::Expr(Box::new(e.duplicate())),
        };
        assert(seq![r].drop_last() =~= Seq::<StringPart>::empty());
        assert(seq![*self].drop_last() =~= Seq::<StringPart>::empty());
        r
    }
}

impl Clone for Expr {
    fn clone(&self) -> (r: Self)
        ensures
            r@ == self@,
    {
        self.duplicate()
    }
}

impl Clone for Stmt {
    fn clone(&self) -> (r: Self)
        ensures
            r@ == self@,
    {
        self.duplicate()
    }
}

impl Clone for TopLevel {
    fn clone(&self) -> (r: Self)
        ensures
            r@ == self@,
    {
        self.duplicate()
    }
}

impl Clone for Program {
    fn clone(&self) -> (r: Self)
        ensures
            r@ == self@,
    {
        self.duplicate()
    }
}

} // verus!
