use vstd::prelude::*;
use crate::ast::{BinaryOp, Expr, Literal, Param, Program, Stmt, StringPart, TopLevel, Type, UnaryOp, type_debug};

verus! {

/// An error found by the type checker.
#[derive(Debug, Clone, PartialEq)]
pub enum TypeError {
    UndeclaredVariable(String),
    TypeMismatch { expected: Type, found: Type },
    NullAssignedToNonNullable(String),
    ReturnTypeMismatch { expected: Type, found: Type },
    UndeclaredFunction(String),
}

/// The message of a type error.
pub open spec fn error_text(e: TypeError) -> Seq<char> {
    match e {
        TypeError::UndeclaredVariable(name) => "undeclared variable '"@ + name@ + "'"@,
        TypeError::TypeMismatch { expected, found } => "type mismatch: expected '"@ + type_debug(expected)
            + "', found '"@ + type_debug(found) + "'"@,
        TypeError::NullAssignedToNonNullable(name) => "cannot assign null to non-nullable variable '"@
            + name@ + "'"@,
        TypeError::ReturnTypeMismatch { expected, found } => "return type mismatch: expected '"@
            + type_debug(expected) + "', found '"@ + type_debug(found) + "'"@,
        TypeError::UndeclaredFunction(name) => "undeclared function '"@ + name@ + "'"@,
    }
}

impl TypeError {
    /// The message of the error.
    pub fn to_string(&self) -> (s: String)
        ensures
            s@ == error_text(*self),
    {
        match self {
            TypeError::UndeclaredVariable(name) => {
                let mut s = String::from_str("undeclared variable '");
                s.append(name.as_str());
                s.append("'");
                s
            },
            TypeError::TypeMismatch { expected, found } => {
                let mut s = String::from_str("type mismatch: expected '");
                let a = expected.debug_string();
                let b = found.debug_string();
                s.append(a.as_str());
                s.append("', found '");
                s.append(b.as_str());
                s.append("'");
                s
            },
            TypeError::NullAssignedToNonNullable(name) => {
                let mut s = String::from_str("cannot assign null to non-nullable variable '");
                s.append(name.as_str());
                s.append("'");
                s
            },
            TypeError::ReturnTypeMismatch { expected, found } => {
                let mut s = String::from_str("return type mismatch: expected '");
                let a = expected.debug_string();
                let b = found.debug_string();
                s.append(a.as_str());
                s.append("', found '");
                s.append(b.as_str());
                s.append("'");
                s
            },
            TypeError::UndeclaredFunction(name) => {
                let mut s = String::from_str("undeclared function '");
                s.append(name.as_str());
                s.append("'");
                s
            },
        }
    }
}

// ---------------------------------------------------------------------------
// The model of the checker's state and what each step does to it.
// ---------------------------------------------------------------------------

/// The state of the type checker: a stack of scopes, each mapping variable names
/// to types; the signatures of the functions (return type, parameter types); the
/// return type of the function being checked; and the errors found so far.
#[verifier::ext_equal]
pub struct CheckState {
    pub scopes: Seq<Map<Seq<char>, Type>>,
    pub functions: Map<Seq<char>, (Type, Seq<Type>)>,
    pub ret: Option<Type>,
    pub errors: Seq<TypeError>,
}

/// The type of a name: the one in the innermost scope that declares it.
pub open spec fn lookup_in(scopes: Seq<Map<Seq<char>, Type>>, name: Seq<char>) -> Option<Type>
    decreases scopes.len(),
{
    if scopes.len() == 0 {
        None
    } else if scopes.last().contains_key(name) {
        Some(scopes.last()[name])
    } else {
        lookup_in(scopes.drop_last(), name)
    }
}

/// Opens a new innermost scope.
pub open spec fn push_scope(st: CheckState) -> CheckState {
    CheckState { scopes: st.scopes.push(Map::empty()), ..st }
}

/// Closes the innermost scope (nothing happens when there is none).
pub open spec fn pop_scope(st: CheckState) -> CheckState {
    if st.scopes.len() > 0 {
        CheckState { scopes: st.scopes.drop_last(), ..st }
    } else {
        st
    }
}

/// Declares `name` with type `ty` in the innermost scope (nothing happens when
/// there is no scope); an earlier declaration of the name in that scope is replaced.
pub open spec fn declare(st: CheckState, name: Seq<char>, ty: Type) -> CheckState {
    if st.scopes.len() > 0 {
        CheckState {
            scopes: st.scopes.update(st.scopes.len() - 1, st.scopes.last().insert(name, ty)),
            ..st
        }
    } else {
        st
    }
}

/// Records an error.
pub open spec fn report(st: CheckState, e: TypeError) -> CheckState {
    CheckState { errors: st.errors.push(e), ..st }
}

/// Whether a value of type `found` may stand where `expected` is wanted: equal
/// types, or a nullable type receiving `null` or its inner type.
pub open spec fn compatible(expected: Type, found: Type) -> bool {
    ||| expected == found
    ||| (expected is Nullable && found == Type::Null)
    ||| (match expected {
        Type::Nullable(inner) => *inner == found,
        _ => false,
    })
}

/// The type of a literal.
pub open spec fn literal_type(lit: Literal) -> Type {
    match lit {
        Literal::Int(_) => Type::Int,
        Literal::Float(_) => Type::Float,
        Literal::String(_) => Type::String,
        Literal::Bool(_) => Type::Bool,
        Literal::Null => Type::Null,
    }
}

/// The type of a binary operation from the types of its operands: arithmetic is
/// `float` when either side is, else `int`; comparisons and logic give `bool`;
/// `??` gives the left type; ranges give `int`.
pub open spec fn binop_type(op: BinaryOp, l: Type, r: Type) -> Type {
    match op {
        BinaryOp::Add | BinaryOp::Sub | BinaryOp::Mul | BinaryOp::Div | BinaryOp::Mod | BinaryOp::Pow => {
            if l == Type::Float || r == Type::Float {
                Type::Float
            } else {
                Type::Int
            }
        },
        BinaryOp::Eq | BinaryOp::Neq | BinaryOp::Lt | BinaryOp::Gt | BinaryOp::Lte | BinaryOp::Gte
        | BinaryOp::And | BinaryOp::Or => Type::Bool,
        BinaryOp::NullCoalesce => l,
        BinaryOp::Range | BinaryOp::RangeInclusive => Type::Int,
    }
}

/// The type of a call of `name` and whether the name is unknown: declared functions
/// give their return type; the built-ins `println` and `printf` give `void`,
/// `sprintf` gives `string`.
pub open spec fn call_type(functions: Map<Seq<char>, (Type, Seq<Type>)>, name: Seq<char>) -> (Type, bool) {
    if functions.contains_key(name) {
        (functions[name].0, false)
    } else if name == "println"@ || name == "printf"@ {
        (Type::Void, false)
    } else if name == "sprintf"@ {
        (Type::String, false)
    } else {
        (Type::Void, true)
    }
}

/// The type of an expression in the given state, and the errors that checking it
/// reports, in order. An undeclared variable is reported and taken as `int`.
pub open spec fn expr_check(sc: Seq<Map<Seq<char>, Type>>, fns: Map<Seq<char>, (Type, Seq<Type>)>, e: Expr) -> (Type, Seq<TypeError>)
    decreases e, 1nat,
{
    match e {
        Expr::Literal(lit) => (literal_type(lit), Seq::empty()),
        Expr::Ident(name) => match lookup_in(sc, name@) {
            Some(t) => (t, Seq::empty()),
            None => (Type::Int, seq![TypeError::UndeclaredVariable(name)]),
        },
        Expr::BinaryOp { op, left, right } => {
            let (l, e1) = expr_check(sc, fns, *left);
            let (r, e2) = expr_check(sc, fns, *right);
            (binop_type(op, l, r), e1 + e2)
        },
        Expr::UnaryOp { op, expr } => {
            let (t, e1) = expr_check(sc, fns, *expr);
            (if op == UnaryOp::Not { Type::Bool } else { t }, e1)
        },
        Expr::Call { name, args } => {
            let errs = exprs_errors(sc, fns, args@);
            let (t, unknown) = call_type(fns, name@);
            (t, if unknown { errs.push(TypeError::UndeclaredFunction(name)) } else { errs })
        },
        Expr::FieldAccess { object, .. } => (Type::Int, expr_check(sc, fns, *object).1),
        Expr::MethodCall { object, args, .. } => (
            Type::Void,
            expr_check(sc, fns, *object).1 + exprs_errors(sc, fns, args@),
        ),
        Expr::Index { array, index } => (
            Type::Int,
            expr_check(sc, fns, *array).1 + expr_check(sc, fns, *index).1,
        ),
        Expr::StringInterp(parts) => (Type::String, parts_errors(sc, fns, parts@)),
    }
}

/// The errors reported by checking each expression of a list in turn.
pub open spec fn exprs_errors(sc: Seq<Map<Seq<char>, Type>>, fns: Map<Seq<char>, (Type, Seq<Type>)>, es: Seq<Expr>) -> Seq<TypeError>
    decreases es, 0nat,
{
    if es.len() == 0 {
        Seq::empty()
    } else {
        exprs_errors(sc, fns, es.drop_last()) + expr_check(sc, fns, es.last()).1
    }
}

/// The errors reported by checking the expressions embedded in an interpolated string.
pub open spec fn parts_errors(sc: Seq<Map<Seq<char>, Type>>, fns: Map<Seq<char>, (Type, Seq<Type>)>, ps: Seq<StringPart>) -> Seq<TypeError>
    decreases ps, 0nat,
{
    if ps.len() == 0 {
        Seq::empty()
    } else {
        parts_errors(sc, fns, ps.drop_last()) + match ps.last() {
            StringPart::Literal(_) => Seq::empty(),
            StringPart::Expr(e) => expr_check(sc, fns, *e).1,
        }
    }
}

/// Records a list of errors.
pub open spec fn add_errors(st: CheckState, errs: Seq<TypeError>) -> CheckState {
    CheckState { errors: st.errors + errs, ..st }
}

/// Checks an expression: its errors are recorded; the state is otherwise unchanged.
pub open spec fn check_expr_st(st: CheckState, e: Expr) -> CheckState {
    add_errors(st, expr_check(st.scopes, st.functions, e).1)
}

/// The state after checking a statement.
pub open spec fn check_stmt_st(st: CheckState, s: Stmt) -> CheckState
    decreases s, 1nat,
{
    match s {
        Stmt::VarDecl { ty, name, value, .. } => {
            let value_ty = expr_check(st.scopes, st.functions, value).0;
            let st1 = check_expr_st(st, value);
            let declared = match ty {
                Some(t) => t,
                None => value_ty,
            };
            let st2 = if value_ty == Type::Null && !(declared is Nullable) {
                report(st1, TypeError::NullAssignedToNonNullable(name))
            } else {
                st1
            };
            declare(st2, name@, declared)
        },
        Stmt::Assign { name, value } => {
            let value_ty = expr_check(st.scopes, st.functions, value).0;
            let st1 = check_expr_st(st, value);
            match lookup_in(st1.scopes, name@) {
                Some(expected) => if !compatible(expected, value_ty) {
                    report(st1, TypeError::TypeMismatch { expected, found: value_ty })
                } else {
                    st1
                },
                None => report(st1, TypeError::UndeclaredVariable(name)),
            }
        },
        Stmt::Return(e) => {
            let (ret_ty, st1) = match e {
                Some(e) => (expr_check(st.scopes, st.functions, e).0, check_expr_st(st, e)),
                None => (Type::Void, st),
            };
            match st1.ret {
                Some(expected) => if !compatible(expected, ret_ty) {
                    report(st1, TypeError::ReturnTypeMismatch { expected, found: ret_ty })
                } else {
                    st1
                },
                None => st1,
            }
        },
        Stmt::If { condition, then_block, else_block } => {
            let st1 = pop_scope(check_stmts_st(push_scope(check_expr_st(st, condition)), then_block@));
            match else_block {
                Some(es) => pop_scope(check_stmts_st(push_scope(st1), es@)),
                None => st1,
            }
        },
        Stmt::While { condition, body } => pop_scope(
            check_stmts_st(push_scope(check_expr_st(st, condition)), body@),
        ),
        Stmt::For { init, condition, step, body } => {
            let st1 = check_stmt_st(push_scope(st), *init);
            let st2 = check_stmt_st(check_expr_st(st1, condition), *step);
            pop_scope(check_stmts_st(st2, body@))
        },
        Stmt::ForRange { ty, name, range, body } => {
            let range_ty = match ty {
                Some(t) => t,
                None => Type::Int,
            };
            let st1 = declare(push_scope(st), name@, range_ty);
            pop_scope(check_stmts_st(check_expr_st(st1, range), body@))
        },
        Stmt::Expr(e) => check_expr_st(st, e),
    }
}

/// The state after checking statements in turn.
pub open spec fn check_stmts_st(st: CheckState, ss: Seq<Stmt>) -> CheckState
    decreases ss, 0nat,
{
    if ss.len() == 0 {
        st
    } else {
        check_stmt_st(check_stmts_st(st, ss.drop_last()), ss.last())
    }
}

/// Declares the parameters in turn.
pub open spec fn declare_params(st: CheckState, ps: Seq<Param>) -> CheckState
    decreases ps.len(),
{
    if ps.len() == 0 {
        st
    } else {
        let p = ps.last();
        declare(declare_params(st, ps.drop_last()), p.name@, p.ty)
    }
}

/// The state after checking a top-level item: a function's body is checked in a
/// new scope that holds its parameters, with its return type as the expected one.
/// Other items are not checked.
pub open spec fn check_top_level_st(st: CheckState, item: TopLevel) -> CheckState {
    match item {
        TopLevel::Function { return_ty, params, body, .. } => {
            let st1 = declare_params(CheckState { ret: Some(return_ty), ..push_scope(st) }, params@);
            let st2 = check_stmts_st(st1, body@);
            pop_scope(CheckState { ret: None, ..st2 })
        },
        _ => st,
    }
}

/// The parameter types of a list of parameters.
pub open spec fn param_types(ps: Seq<Param>) -> Seq<Type> {
    ps.map_values(|p: Param| p.ty)
}

/// Registers the signatures of the functions among the items, in order (a later
/// function of the same name replaces an earlier one).
pub open spec fn register_functions(
    functions: Map<Seq<char>, (Type, Seq<Type>)>,
    items: Seq<TopLevel>,
) -> Map<Seq<char>, (Type, Seq<Type>)>
    decreases items.len(),
{
    if items.len() == 0 {
        functions
    } else {
        let f = register_functions(functions, items.drop_last());
        match items.last() {
            TopLevel::Function { return_ty, name, params, .. } => f.insert(
                name@,
                (return_ty, param_types(params@)),
            ),
            _ => f,
        }
    }
}

pub open spec fn check_items_st(st: CheckState, items: Seq<TopLevel>) -> CheckState
    decreases items.len(),
{
    if items.len() == 0 {
        st
    } else {
        check_top_level_st(check_items_st(st, items.drop_last()), items.last())
    }
}

/// The state after checking a program: first every function's signature is
/// registered, then every item is checked in turn.
pub open spec fn check_program_st(st: CheckState, p: Program) -> CheckState {
    check_items_st(
        CheckState { functions: register_functions(st.functions, p.items@), ..st },
        p.items@,
    )
}

} // verus!

verus! {

/// The map that a list of declarations stands for: a later entry for a name
/// replaces an earlier one.
pub open spec fn scope_map(es: Seq<(String, Type)>) -> Map<Seq<char>, Type>
    decreases es.len(),
{
    if es.len() == 0 {
        Map::empty()
    } else {
        scope_map(es.drop_last()).insert(es.last().0@, es.last().1)
    }
}

/// The map of function signatures that a list of entries stands for.
pub open spec fn functions_map(fs: Seq<(String, Type, Vec<Type>)>) -> Map<Seq<char>, (Type, Seq<Type>)>
    decreases fs.len(),
{
    if fs.len() == 0 {
        Map::empty()
    } else {
        functions_map(fs.drop_last()).insert(fs.last().0@, (fs.last().1, fs.last().2@))
    }
}

pub open spec fn scopes_view(scopes: Seq<Vec<(String, Type)>>) -> Seq<Map<Seq<char>, Type>> {
    scopes.map_values(|es: Vec<(String, Type)>| scope_map(es@))
}

proof fn lemma_scope_map_found(es: Seq<(String, Type)>, j: int, k: Seq<char>)
    requires
        0 <= j < es.len(),
        es[j].0@ == k,
        forall|m: int| j < m < es.len() ==> es[m].0@ != k,
    ensures
        scope_map(es).contains_key(k),
        scope_map(es)[k] == es[j].1,
    decreases es.len(),
{
    if j < es.len() - 1 {
        lemma_scope_map_found(es.drop_last(), j, k);
    }
}

proof fn lemma_scope_map_absent(es: Seq<(String, Type)>, k: Seq<char>)
    requires
        forall|m: int| 0 <= m < es.len() ==> es[m].0@ != k,
    ensures
        !scope_map(es).contains_key(k),
    decreases es.len(),
{
    if es.len() > 0 {
        lemma_scope_map_absent(es.drop_last(), k);
    }
}

proof fn lemma_functions_map_found(fs: Seq<(String, Type, Vec<Type>)>, j: int, k: Seq<char>)
    requires
        0 <= j < fs.len(),
        fs[j].0@ == k,
        forall|m: int| j < m < fs.len() ==> fs[m].0@ != k,
    ensures
        functions_map(fs).contains_key(k),
        functions_map(fs)[k].0 == fs[j].1,
    decreases fs.len(),
{
    if j < fs.len() - 1 {
        lemma_functions_map_found(fs.drop_last(), j, k);
    }
}

proof fn lemma_functions_map_absent(fs: Seq<(String, Type, Vec<Type>)>, k: Seq<char>)
    requires
        forall|m: int| 0 <= m < fs.len() ==> fs[m].0@ != k,
    ensures
        !functions_map(fs).contains_key(k),
    decreases fs.len(),
{
    if fs.len() > 0 {
        lemma_functions_map_absent(fs.drop_last(), k);
    }
}

/// The type checker: it walks a program and records the type errors it finds.
pub struct TypeChecker {
    scopes: Vec<Vec<(String, Type)>>,
    functions: Vec<(String, Type, Vec<Type>)>,
    current_return_ty: Option<Type>,
    pub errors: Vec<TypeError>,
}

impl View for TypeChecker {
    type V = CheckState;

    closed spec fn view(&self) -> CheckState {
        CheckState {
            scopes: scopes_view(self.scopes@),
            functions: functions_map(self.functions@),
            ret: self.current_return_ty,
            errors: self.errors@,
        }
    }
}

impl TypeChecker {
    /// The state of a fresh checker: one empty scope, no functions, no errors.
    pub open spec fn initial_state() -> CheckState {
        CheckState {
            scopes: seq![Map::empty()],
            functions: Map::empty(),
            ret: None,
            errors: Seq::empty(),
        }
    }

    /// The errors recorded so far, in the order they were found.
    pub fn errors(&self) -> (r: &Vec<TypeError>)
        ensures
            r@ == self@.errors,
    {
        &self.errors
    }

    pub fn new() -> (c: TypeChecker)
        ensures
            c@ == Self::initial_state(),
    {
        let c = TypeChecker {
            scopes: vec![Vec::new()],
            functions: Vec::new(),
            current_return_ty: None,
            errors: vec![],
        };
        assert(c@.scopes =~= seq![Map::<Seq<char>, Type>::empty()]);
        assert(c@ =~= Self::initial_state());
        c
    }

    fn push_scope(&mut self)
        ensures
            final(self)@ == push_scope(old(self)@),
    {
        self.scopes.push(Vec::new());
        assert(scopes_view(self.scopes@) =~= scopes_view(old(self).scopes@).push(Map::empty()));
        assert(self@ =~= push_scope(old(self)@));
    }

    fn pop_scope(&mut self)
        ensures
            final(self)@ == pop_scope(old(self)@),
    {
        let _ = self.scopes.pop();
        assert(self.scopes@.len() > 0 ==> scopes_view(self.scopes@) =~= scopes_view(old(self).scopes@).drop_last());
        assert(self@ =~= pop_scope(old(self)@));
    }

    fn declare(&mut self, name: &String, ty: Type)
        ensures
            final(self)@ == declare(old(self)@, name@, ty),
    {
        if self.scopes.len() > 0 {
            let mut scope = self.scopes.pop().unwrap();
            let ghost old_scope = scope@;
            scope.push((name.clone(), ty));
            assert(scope@.drop_last() =~= old_scope);
            self.scopes.push(scope);
            assert(scopes_view(self.scopes@) =~= scopes_view(old(self).scopes@).update(
                old(self).scopes@.len() - 1,
                scope_map(old_scope).insert(name@, ty),
            ));
        }
        assert(self@ =~= declare(old(self)@, name@, ty));
    }

    fn lookup_scope(scope: &Vec<(String, Type)>, name: &String) -> (r: Option<Type>)
        ensures
            r == (if scope_map(scope@).contains_key(name@) {
                Some(scope_map(scope@)[name@])
            } else {
                None
            }),
    {
        let mut j = scope.len();
        while j > 0
            invariant
                j <= scope@.len(),
                forall|m: int| j <= m < scope@.len() ==> scope@[m].0@ != name@,
            decreases j,
        {
            j = j - 1;
            if scope[j].0.eq(name) {
                proof {
                    lemma_scope_map_found(scope@, j as int, name@);
                }
                return Some(scope[j].1.duplicate());
            }
        }
        proof {
            lemma_scope_map_absent(scope@, name@);
        }
        None
    }

    fn lookup(&self, name: &String) -> (r: Option<Type>)
        ensures
            r == lookup_in(self@.scopes, name@),
    {
        let mut i = self.scopes.len();
        assert(self.scopes@.take(i as int) =~= self.scopes@);
        while i > 0
            invariant
                i <= self.scopes@.len(),
                lookup_in(scopes_view(self.scopes@), name@) == lookup_in(
                    scopes_view(self.scopes@.take(i as int)),
                    name@,
                ),
            decreases i,
        {
            let ghost taken = self.scopes@.take(i as int);
            assert(scopes_view(taken).drop_last() =~= scopes_view(self.scopes@.take(i - 1)));
            i = i - 1;
            match Self::lookup_scope(&self.scopes[i], name) {
                Some(t) => {
                    return Some(t);
                },
                None => {},
            }
        }
        assert(self.scopes@.take(self.scopes@.len() as int) =~= self.scopes@);
        None
    }

    fn types_compatible(&self, expected: &Type, found: &Type) -> (b: bool)
        ensures
            b == compatible(*expected, *found),
    {
        if expected.same(found) {
            return true;
        }
        if let Type::Nullable(_) = expected {
            if let Type::Null = found {
                return true;
            }
        }
        if let Type::Nullable(inner) = expected {
            if inner.same(found) {
                return true;
            }
        }
        false
    }

    fn function_return(&self, name: &String) -> (r: Option<Type>)
        ensures
            r == (if self@.functions.contains_key(name@) {
                Some(self@.functions[name@].0)
            } else {
                None
            }),
    {
        let mut j = self.functions.len();
        while j > 0
            invariant
                j <= self.functions@.len(),
                forall|m: int| j <= m < self.functions@.len() ==> self.functions@[m].0@ != name@,
            decreases j,
        {
            j = j - 1;
            if self.functions[j].0.eq(name) {
                proof {
                    lemma_functions_map_found(self.functions@, j as int, name@);
                }
                return Some(self.functions[j].1.duplicate());
            }
        }
        proof {
            lemma_functions_map_absent(self.functions@, name@);
        }
        None
    }

    fn report(&mut self, e: TypeError)
        ensures
            final(self)@ == report(old(self)@, e),
    {
        self.errors.push(e);
        assert(self@ =~= report(old(self)@, e));
    }

    fn check_exprs(&mut self, es: &Vec<Expr>)
        ensures
            final(self)@ == add_errors(old(self)@, exprs_errors(old(self)@.scopes, old(self)@.functions, es@)),
        decreases es, 0nat,
    {
        let mut i: usize = 0;
        while i < es.len()
            invariant
                i <= es.len(),
                self@ == add_errors(old(self)@, exprs_errors(old(self)@.scopes, old(self)@.functions, es@.take(i as int))),
            decreases es.len() - i,
        {
            proof {
                assert(es@.take(i + 1).drop_last() =~= es@.take(i as int));
                assert(decreases_to!(es => es@[i as int]));
            }
            let ghost before = self@;
            self.check_expr(&es[i]);
            assert(self@.errors =~= old(self)@.errors + exprs_errors(old(self)@.scopes, old(self)@.functions, es@.take(i + 1)));
            assert(self@ =~= add_errors(old(self)@, exprs_errors(old(self)@.scopes, old(self)@.functions, es@.take(i + 1))));
            i = i + 1;
        }
        assert(es@.take(es.len() as int) =~= es@);
    }

    fn check_parts(&mut self, ps: &Vec<StringPart>)
        ensures
            final(self)@ == add_errors(old(self)@, parts_errors(old(self)@.scopes, old(self)@.functions, ps@)),
        decreases ps, 0nat,
    {
        let mut i: usize = 0;
        while i < ps.len()
            invariant
                i <= ps.len(),
                self@ == add_errors(old(self)@, parts_errors(old(self)@.scopes, old(self)@.functions, ps@.take(i as int))),
            decreases ps.len() - i,
        {
            proof {
                assert(ps@.take(i + 1).drop_last() =~= ps@.take(i as int));
                assert(decreases_to!(ps => ps@[i as int]));
            }
            match &ps[i] {
                StringPart::Literal(_) => {},
                StringPart::Expr(e) => {
                    self.check_expr(e);
                },
            }
            assert(self@.errors =~= old(self)@.errors + parts_errors(old(self)@.scopes, old(self)@.functions, ps@.take(i + 1)));
            assert(self@ =~= add_errors(old(self)@, parts_errors(old(self)@.scopes, old(self)@.functions, ps@.take(i + 1))));
            i = i + 1;
        }
        assert(ps@.take(ps.len() as int) =~= ps@);
    }

    fn check_expr(&mut self, expr: &Expr) -> (t: Type)
        ensures
            final(self)@ == check_expr_st(old(self)@, *expr),
            t == expr_check(old(self)@.scopes, old(self)@.functions, *expr).0,
        decreases expr, 1nat,
    {
        let ghost st = self@;
        let t = match expr {
            Expr::Literal(lit) => match lit {
                Literal::Int(_) => Type::Int,
                Literal::Float(_) => Type::Float,
                Literal::String(_) => Type::String,
                Literal::Bool(_) => Type::Bool,
                Literal::Null => Type::Null,
            },
            Expr::Ident(name) => {
                match self.lookup(name) {
                    Some(ty) => ty,
                    None => {
                        self.report(TypeError::UndeclaredVariable(name.clone()));
                        Type::Int
                    },
                }
            },
            Expr::BinaryOp { op, left, right } => {
                let l = self.check_expr(left);
                let r = self.check_expr(right);
                match op {
                    BinaryOp::Add | BinaryOp::Sub | BinaryOp::Mul | BinaryOp::Div | BinaryOp::Mod
                    | BinaryOp::Pow => {
                        if l.same(&Type::Float) || r.same(&Type::Float) {
                            Type::Float
                        } else {
                            Type::Int
                        }
                    },
                    BinaryOp::Eq | BinaryOp::Neq | BinaryOp::Lt | BinaryOp::Gt | BinaryOp::Lte
                    | BinaryOp::Gte | BinaryOp::And | BinaryOp::Or => Type::Bool,
                    BinaryOp::NullCoalesce => l,
                    BinaryOp::Range | BinaryOp::RangeInclusive => Type::Int,
                }
            },
            Expr::UnaryOp { op, expr: inner } => {
                let ty = self.check_expr(inner);
                match op {
                    UnaryOp::Not => Type::Bool,
                    UnaryOp::Neg => ty,
                    UnaryOp::PostIncrement | UnaryOp::PostDecrement => ty,
                }
            },
            Expr::Call { name, args } => {
                self.check_exprs(args);
                match self.function_return(name) {
                    Some(ret_ty) => ret_ty,
                    None => {
                        if crate::text::string_is(name, "println") || crate::text::string_is(name, "printf") {
                            Type::Void
                        } else if crate::text::string_is(name, "sprintf") {
                            Type::String
                        } else {
                            self.report(TypeError::UndeclaredFunction(name.clone()));
                            Type::Void
                        }
                    },
                }
            },
            Expr::FieldAccess { object, .. } => {
                self.check_expr(object);
                Type::Int
            },
            Expr::MethodCall { object, args, .. } => {
                self.check_expr(object);
                self.check_exprs(args);
                Type::Void
            },
            Expr::Index { array, index } => {
                self.check_expr(array);
                self.check_expr(index);
                Type::Int
            },
            Expr::StringInterp(parts) => {
                self.check_parts(parts);
                Type::String
            },
        };
        assert(self@ =~= check_expr_st(st, *expr));
        t
    }

    fn check_block(&mut self, stmts: &Vec<Stmt>)
        ensures
            final(self)@ == check_stmts_st(old(self)@, stmts@),
        decreases stmts, 0nat,
    {
        let mut i: usize = 0;
        while i < stmts.len()
            invariant
                i <= stmts.len(),
                self@ == check_stmts_st(old(self)@, stmts@.take(i as int)),
            decreases stmts.len() - i,
        {
            proof {
                assert(stmts@.take(i + 1).drop_last() =~= stmts@.take(i as int));
                assert(decreases_to!(stmts => stmts@[i as int]));
            }
            self.check_stmt(&stmts[i]);
            i = i + 1;
        }
        assert(stmts@.take(stmts.len() as int) =~= stmts@);
    }

    fn check_var_decl(&mut self, stmt: &Stmt)
        requires
            stmt is VarDecl,
        ensures
            final(self)@ == check_stmt_st(old(self)@, *stmt),
    {
        match stmt {
            Stmt::VarDecl { ty, name, value, .. } => {
                let value_ty = self.check_expr(value);
                let declared_ty = match ty {
                    Some(t) => t.duplicate(),
                    None => value_ty.duplicate(),
                };
                let nullable = match declared_ty {
                    Type::Nullable(_) => true,
                    _ => false,
                };
                if value_ty.same(&Type::Null) && !nullable {
                    self.report(TypeError::NullAssignedToNonNullable(name.clone()));
                }
                self.declare(name, declared_ty);
            },
            _ => vstd::pervasive::unreached(),
        }
    }

    fn check_assign(&mut self, stmt: &Stmt)
        requires
            stmt is Assign,
        ensures
            final(self)@ == check_stmt_st(old(self)@, *stmt),
    {
        match stmt {
            Stmt::Assign { name, value } => {
                let value_ty = self.check_expr(value);
                match self.lookup(name) {
                    Some(expected) => {
                        if !self.types_compatible(&expected, &value_ty) {
                            self.report(TypeError::TypeMismatch { expected, found: value_ty });
                        }
                    },
                    None => self.report(TypeError::UndeclaredVariable(name.clone())),
                }
            },
            _ => vstd::pervasive::unreached(),
        }
    }

    fn check_return(&mut self, stmt: &Stmt)
        requires
            stmt is Return,
        ensures
            final(self)@ == check_stmt_st(old(self)@, *stmt),
    {
        match stmt {
            Stmt::Return(expr) => {
                let ret_ty = match expr {
                    Some(e) => self.check_expr(e),
                    None => Type::Void,
                };
                match &self.current_return_ty {
                    Some(expected) => {
                        let expected = expected.duplicate();
                        if !self.types_compatible(&expected, &ret_ty) {
                            self.report(TypeError::ReturnTypeMismatch { expected, found: ret_ty });
                        }
                    },
                    None => {},
                }
            },
            _ => vstd::pervasive::unreached(),
        }
    }

    fn check_if(&mut self, stmt: &Stmt)
        requires
            stmt is If,
        ensures
            final(self)@ == check_stmt_st(old(self)@, *stmt),
        decreases stmt, 0nat,
    {
        match stmt {
            Stmt::If { condition, then_block, else_block } => {
                self.check_expr(condition);
                self.push_scope();
                self.check_block(then_block);
                self.pop_scope();
                match else_block {
                    Some(else_stmts) => {
                        self.push_scope();
                        self.check_block(else_stmts);
                        self.pop_scope();
                    },
                    None => {},
                }
            },
            _ => vstd::pervasive::unreached(),
        }
    }

    fn check_while(&mut self, stmt: &Stmt)
        requires
            stmt is While,
        ensures
            final(self)@ == check_stmt_st(old(self)@, *stmt),
        decreases stmt, 0nat,
    {
        match stmt {
            Stmt::While { condition, body } => {
                self.check_expr(condition);
                self.push_scope();
                self.check_block(body);
                self.pop_scope();
            },
            _ => vstd::pervasive::unreached(),
        }
    }

    fn check_for(&mut self, stmt: &Stmt)
        requires
            stmt is For,
        ensures
            final(self)@ == check_stmt_st(old(self)@, *stmt),
        decreases stmt, 0nat,
    {
        match stmt {
            Stmt::For { init, condition, step, body } => {
                self.push_scope();
                self.check_stmt(init);
                self.check_expr(condition);
                self.check_stmt(step);
                self.check_block(body);
                self.pop_scope();
            },
            _ => vstd::pervasive::unreached(),
        }
    }

    fn check_for_range(&mut self, stmt: &Stmt)
        requires
            stmt is ForRange,
        ensures
            final(self)@ == check_stmt_st(old(self)@, *stmt),
        decreases stmt, 0nat,
    {
        match stmt {
            Stmt::ForRange { ty, name, range, body } => {
                self.push_scope();
                let range_ty = match ty {
                    Some(t) => t.duplicate(),
                    None => Type::Int,
                };
                self.declare(name, range_ty);
                self.check_expr(range);
                self.check_block(body);
                self.pop_scope();
            },
            _ => vstd::pervasive::unreached(),
        }
    }

    fn check_stmt(&mut self, stmt: &Stmt)
        ensures
            final(self)@ == check_stmt_st(old(self)@, *stmt),
        decreases stmt, 1nat,
    {
        match stmt {
            Stmt::VarDecl { .. } => self.check_var_decl(stmt),
            Stmt::Assign { .. } => self.check_assign(stmt),
            Stmt::Return(_) => self.check_return(stmt),
            Stmt::If { .. } => self.check_if(stmt),
            Stmt::While { .. } => self.check_while(stmt),
            Stmt::For { .. } => self.check_for(stmt),
            Stmt::ForRange { .. } => self.check_for_range(stmt),
            Stmt::Expr(expr) => {
                self.check_expr(expr);
            },
        }
    }

    fn declare_params(&mut self, params: &Vec<Param>)
        ensures
            final(self)@ == declare_params(old(self)@, params@),
    {
        let mut i: usize = 0;
        while i < params.len()
            invariant
                i <= params.len(),
                self@ == declare_params(old(self)@, params@.take(i as int)),
            decreases params.len() - i,
        {
            proof {
                assert(params@.take(i + 1).drop_last() =~= params@.take(i as int));
            }
            let param = &params[i];
            self.declare(&param.name, param.ty.duplicate());
            i = i + 1;
        }
        assert(params@.take(params.len() as int) =~= params@);
    }

    fn set_return_ty(&mut self, ty: Option<Type>)
        ensures
            final(self)@ == (CheckState { ret: ty, ..old(self)@ }),
    {
        self.current_return_ty = ty;
        assert(self@ =~= (CheckState { ret: ty, ..old(self)@ }));
    }

    fn check_top_level(&mut self, item: &TopLevel)
        ensures
            final(self)@ == check_top_level_st(old(self)@, *item),
    {
        match item {
            TopLevel::Function { return_ty, params, body, .. } => {
                self.push_scope();
                self.set_return_ty(Some(return_ty.duplicate()));
                self.declare_params(params);
                self.check_block(body);
                self.set_return_ty(None);
                self.pop_scope();
            },
            _ => {},
        }
    }

    fn param_types(params: &Vec<Param>) -> (r: Vec<Type>)
        ensures
            r@ == param_types(params@),
    {
        let mut r: Vec<Type> = Vec::new();
        let mut i: usize = 0;
        while i < params.len()
            invariant
                i <= params.len(),
                r@ == param_types(params@.take(i as int)),
            decreases params.len() - i,
        {
            r.push(params[i].ty.duplicate());
            i = i + 1;
            assert(r@ =~= param_types(params@.take(i as int)));
        }
        assert(params@.take(params.len() as int) =~= params@);
        r
    }

    fn register_function(&mut self, name: &String, return_ty: &Type, params: &Vec<Param>)
        ensures
            final(self)@ == (CheckState {
                functions: old(self)@.functions.insert(name@, (*return_ty, param_types(params@))),
                ..old(self)@
            }),
    {
        let ptys = Self::param_types(params);
        self.functions.push((name.clone(), return_ty.duplicate(), ptys));
        assert(self.functions@.drop_last() =~= old(self).functions@);
        assert(self@ =~= (CheckState {
            functions: old(self)@.functions.insert(name@, (*return_ty, param_types(params@))),
            ..old(self)@
        }));
    }

    /// Checks a program: first it registers the signature of every function,
    /// then it checks each item in turn, recording the type errors it finds.
    pub fn check_program(&mut self, program: &Program)
        ensures
            final(self)@ == check_program_st(old(self)@, *program),
    {
        let mut i: usize = 0;
        while i < program.items.len()
            invariant
                i <= program.items.len(),
                self@ == (CheckState {
                    functions: register_functions(old(self)@.functions, program.items@.take(i as int)),
                    ..old(self)@
                }),
            decreases program.items.len() - i,
        {
            proof {
                assert(program.items@.take(i + 1).drop_last() =~= program.items@.take(i as int));
            }
            match &program.items[i] {
                TopLevel::Function { return_ty, name, params, .. } => {
                    self.register_function(name, return_ty, params);
                },
                _ => {},
            }
            i = i + 1;
            assert(self@ =~= (CheckState {
                functions: register_functions(old(self)@.functions, program.items@.take(i as int)),
                ..old(self)@
            }));
        }
        assert(program.items@.take(program.items.len() as int) =~= program.items@);
        let ghost registered = self@;
        let mut j: usize = 0;
        while j < program.items.len()
            invariant
                j <= program.items.len(),
                self@ == check_items_st(registered, program.items@.take(j as int)),
            decreases program.items.len() - j,
        {
            proof {
                assert(program.items@.take(j + 1).drop_last() =~= program.items@.take(j as int));
            }
            self.check_top_level(&program.items[j]);
            j = j + 1;
        }
        assert(program.items@.take(program.items.len() as int) =~= program.items@);
    }
}

} // verus!

verus! {

/// A name declared in a scope is found there, with the declared type, until the
/// scope is closed (the innermost declaration wins).
pub proof fn law_lookup_after_declare(st: CheckState, name: Seq<char>, ty: Type)
    requires
        st.scopes.len() > 0,
    ensures
        lookup_in(declare(st, name, ty).scopes, name) == Some(ty),
{
}

/// Opening a scope and closing it again gives back the state before.
pub proof fn law_pop_push(st: CheckState)
    ensures
        pop_scope(push_scope(st)) == st,
{
    assert(st.scopes.push(Map::empty()).drop_last() =~= st.scopes);
    assert(pop_scope(push_scope(st)) =~= st);
}

/// A type accepts itself; a nullable type accepts `null` and its inner type; a type
/// that is not nullable accepts `null` only when it is the `null` type itself.
pub proof fn law_compatible(t: Type)
    ensures
        compatible(t, t),
        compatible(Type::Nullable(Box::new(t)), Type::Null),
        compatible(Type::Nullable(Box::new(t)), t),
        !(t is Nullable) ==> (compatible(t, Type::Null) <==> t == Type::Null),
{
}

/// What checking a statement keeps: every scope but the innermost, the functions,
/// the expected return type, and the errors found before (new ones are only appended).
pub open spec fn frame(st: CheckState, r: CheckState) -> bool {
    &&& r.scopes.len() == st.scopes.len()
    &&& r.scopes.drop_last() == st.scopes.drop_last()
    &&& r.functions == st.functions
    &&& r.ret == st.ret
    &&& st.errors.len() <= r.errors.len()
    &&& r.errors.subrange(0, st.errors.len() as int) == st.errors
}

proof fn lemma_frame_trans(a: CheckState, b: CheckState, c: CheckState)
    requires
        frame(a, b),
        frame(b, c),
    ensures
        frame(a, c),
{
    assert(c.errors.subrange(0, a.errors.len() as int) =~= c.errors.subrange(0, b.errors.len() as int).subrange(0, a.errors.len() as int));
}

proof fn lemma_frame_expr(st: CheckState, e: Expr)
    ensures
        frame(st, check_expr_st(st, e)),
{
    assert(check_expr_st(st, e).errors.subrange(0, st.errors.len() as int) =~= st.errors);
}

proof fn lemma_frame_declare(st: CheckState, name: Seq<char>, ty: Type)
    ensures
        frame(st, declare(st, name, ty)),
{
    assert(declare(st, name, ty).scopes.drop_last() =~= st.scopes.drop_last());
    assert(st.errors.subrange(0, st.errors.len() as int) =~= st.errors);
}

proof fn lemma_frame_report(st: CheckState, e: TypeError)
    ensures
        frame(st, report(st, e)),
{
    assert(report(st, e).errors.subrange(0, st.errors.len() as int) =~= st.errors);
}

proof fn lemma_frame_refl(st: CheckState)
    ensures
        frame(st, st),
{
    assert(st.errors.subrange(0, st.errors.len() as int) =~= st.errors);
}

/// A block checked in its own scope: the state outside the block is kept.
proof fn lemma_frame_scoped_block(st: CheckState, ss: Seq<Stmt>)
    ensures
        frame(st, pop_scope(check_stmts_st(push_scope(st), ss))),
        pop_scope(check_stmts_st(push_scope(st), ss)).scopes == st.scopes,
    decreases ss, 2nat,
{
    let p = push_scope(st);
    lemma_frame_stmts(p, ss);
    let q = check_stmts_st(p, ss);
    assert(p.scopes.drop_last() =~= st.scopes);
    assert(pop_scope(q).scopes =~= st.scopes);
    assert(pop_scope(q).errors.subrange(0, st.errors.len() as int) =~= st.errors);
}

proof fn lemma_frame_stmts(st: CheckState, ss: Seq<Stmt>)
    ensures
        frame(st, check_stmts_st(st, ss)),
    decreases ss, 1nat,
{
    if ss.len() == 0 {
        lemma_frame_refl(st);
    } else {
        lemma_frame_stmts(st, ss.drop_last());
        let mid = check_stmts_st(st, ss.drop_last());
        lemma_frame_stmt(mid, ss.last());
        lemma_frame_trans(st, mid, check_stmt_st(mid, ss.last()));
    }
}

proof fn lemma_frame_stmt(st: CheckState, s: Stmt)
    ensures
        frame(st, check_stmt_st(st, s)),
    decreases s, 0nat,
{
    match s {
        Stmt::VarDecl { ty, name, value, .. } => {
            let st1 = check_expr_st(st, value);
            lemma_frame_expr(st, value);
            let value_ty = expr_check(st.scopes, st.functions, value).0;
            let declared = match ty {
                Some(t) => t,
                None => value_ty,
            };
            let st2 = if value_ty == Type::Null && !(declared is Nullable) {
                report(st1, TypeError::NullAssignedToNonNullable(name))
            } else {
                st1
            };
            lemma_frame_report(st1, TypeError::NullAssignedToNonNullable(name));
            lemma_frame_refl(st1);
            lemma_frame_trans(st, st1, st2);
            lemma_frame_declare(st2, name@, declared);
            lemma_frame_trans(st, st2, declare(st2, name@, declared));
        },
        Stmt::Assign { name, value } => {
            let st1 = check_expr_st(st, value);
            lemma_frame_expr(st, value);
            let value_ty = expr_check(st.scopes, st.functions, value).0;
            match lookup_in(st1.scopes, name@) {
                Some(expected) => {
                    lemma_frame_report(st1, TypeError::TypeMismatch { expected, found: value_ty });
                    lemma_frame_refl(st1);
                    lemma_frame_trans(st, st1, check_stmt_st(st, s));
                },
                None => {
                    lemma_frame_report(st1, TypeError::UndeclaredVariable(name));
                    lemma_frame_trans(st, st1, check_stmt_st(st, s));
                },
            }
        },
        Stmt::Return(e) => {
            let st1 = match e {
                Some(e) => check_expr_st(st, e),
                None => st,
            };
            match e {
                Some(e) => lemma_frame_expr(st, e),
                None => lemma_frame_refl(st),
            }
            let ret_ty = match e {
                Some(e) => expr_check(st.scopes, st.functions, e).0,
                None => Type::Void,
            };
            match st1.ret {
                Some(expected) => {
                    lemma_frame_report(st1, TypeError::ReturnTypeMismatch { expected, found: ret_ty });
                },
                None => {},
            }
            lemma_frame_refl(st1);
            lemma_frame_trans(st, st1, check_stmt_st(st, s));
        },
        Stmt::If { condition, then_block, else_block } => {
            let st0 = check_expr_st(st, condition);
            lemma_frame_expr(st, condition);
            lemma_frame_scoped_block(st0, then_block@);
            let st1 = pop_scope(check_stmts_st(push_scope(st0), then_block@));
            lemma_frame_trans(st, st0, st1);
            match else_block {
                Some(es) => {
                    lemma_frame_scoped_block(st1, es@);
                    lemma_frame_trans(st, st1, check_stmt_st(st, s));
                },
                None => {},
            }
        },
        Stmt::While { condition, body } => {
            let st0 = check_expr_st(st, condition);
            lemma_frame_expr(st, condition);
            lemma_frame_scoped_block(st0, body@);
            lemma_frame_trans(st, st0, check_stmt_st(st, s));
        },
        Stmt::For { init, condition, step, body } => {
            let p = push_scope(st);
            lemma_frame_stmt(p, *init);
            let st1 = check_stmt_st(p, *init);
            lemma_frame_expr(st1, condition);
            let st1b = check_expr_st(st1, condition);
            lemma_frame_trans(p, st1, st1b);
            lemma_frame_stmt(st1b, *step);
            let st2 = check_stmt_st(st1b, *step);
            lemma_frame_trans(p, st1b, st2);
            lemma_frame_stmts(st2, body@);
            let st3 = check_stmts_st(st2, body@);
            lemma_frame_trans(p, st2, st3);
            assert(p.scopes.drop_last() =~= st.scopes);
            assert(pop_scope(st3).scopes =~= st.scopes);
            assert(pop_scope(st3).errors.subrange(0, st.errors.len() as int) =~= st.errors);
        },
        Stmt::ForRange { ty, name, range, body } => {
            let range_ty = match ty {
                Some(t) => t,
                None => Type::Int,
            };
            let p = push_scope(st);
            lemma_frame_declare(p, name@, range_ty);
            let st1 = declare(p, name@, range_ty);
            lemma_frame_expr(st1, range);
            let st1b = check_expr_st(st1, range);
            lemma_frame_trans(p, st1, st1b);
            lemma_frame_stmts(st1b, body@);
            let st2 = check_stmts_st(st1b, body@);
            lemma_frame_trans(p, st1b, st2);
            assert(p.scopes.drop_last() =~= st.scopes);
            assert(pop_scope(st2).scopes =~= st.scopes);
            assert(pop_scope(st2).errors.subrange(0, st.errors.len() as int) =~= st.errors);
        },
        Stmt::Expr(e) => lemma_frame_expr(st, e),
    }
}

/// Checking a statement keeps every scope but the innermost one, the functions,
/// the expected return type, and the errors already found (it only appends errors).
pub proof fn law_check_stmt_frame(st: CheckState, s: Stmt)
    ensures
        frame(st, check_stmt_st(st, s)),
{
    lemma_frame_stmt(st, s);
}

/// Checking a program leaves the scopes as they were, so every name is looked up
/// as before (parameters and locals do not leak), and keeps the errors found before
/// it, only appending new ones; a program without functions adds no error.
pub proof fn law_check_program_keeps_scopes(st: CheckState, p: Program)
    ensures
        check_program_st(st, p).scopes == st.scopes,
        forall|n: Seq<char>| lookup_in(#[trigger] check_program_st(st, p).scopes, n) == lookup_in(st.scopes, n),
        st.errors.len() <= check_program_st(st, p).errors.len(),
        check_program_st(st, p).errors.subrange(0, st.errors.len() as int) == st.errors,
        (forall|i: int| 0 <= i < p.items@.len() ==> !(#[trigger] p.items@[i] is Function))
            ==> check_program_st(st, p).errors == st.errors,
{
    let st0 = CheckState { functions: register_functions(st.functions, p.items@), ..st };
    lemma_items_keep_scopes(st0, p.items@);
    if forall|i: int| 0 <= i < p.items@.len() ==> !(#[trigger] p.items@[i] is Function) {
        lemma_no_functions(st0, p.items@);
    }
}

proof fn lemma_no_functions(st: CheckState, items: Seq<TopLevel>)
    requires
        forall|i: int| 0 <= i < items.len() ==> !(#[trigger] items[i] is Function),
    ensures
        check_items_st(st, items) == st,
    decreases items.len(),
{
    if items.len() > 0 {
        assert(!(items[items.len() - 1] is Function));
        lemma_no_functions(st, items.drop_last());
    }
}

/// A block statement (`if`, `while`, `for`, a range `for`) leaves the scopes as they
/// were, so every name is looked up as before: the names declared in its blocks, its
/// `for` initializer and its range variable do not escape it. Errors are only appended.
pub proof fn law_block_keeps_lookups(st: CheckState, s: Stmt)
    requires
        s is If || s is While || s is For || s is ForRange,
    ensures
        check_stmt_st(st, s).scopes == st.scopes,
        forall|n: Seq<char>| lookup_in(#[trigger] check_stmt_st(st, s).scopes, n) == lookup_in(st.scopes, n),
        st.errors.len() <= check_stmt_st(st, s).errors.len(),
        check_stmt_st(st, s).errors.subrange(0, st.errors.len() as int) == st.errors,
{
    lemma_frame_stmt(st, s);
    match s {
        Stmt::If { condition, then_block, else_block } => {
            let st0 = check_expr_st(st, condition);
            lemma_frame_scoped_block(st0, then_block@);
            let st1 = pop_scope(check_stmts_st(push_scope(st0), then_block@));
            match else_block {
                Some(es) => lemma_frame_scoped_block(st1, es@),
                None => {},
            }
        },
        Stmt::While { condition, body } => {
            lemma_frame_scoped_block(check_expr_st(st, condition), body@);
        },
        Stmt::For { init, condition, step, body } => {
            let p = push_scope(st);
            let st1 = check_stmt_st(p, *init);
            lemma_frame_stmt(p, *init);
            let st1b = check_expr_st(st1, condition);
            lemma_frame_expr(st1, condition);
            lemma_frame_trans(p, st1, st1b);
            let st2 = check_stmt_st(st1b, *step);
            lemma_frame_stmt(st1b, *step);
            lemma_frame_trans(p, st1b, st2);
            lemma_frame_stmts(st2, body@);
            lemma_frame_trans(p, st2, check_stmts_st(st2, body@));
            assert(p.scopes.drop_last() =~= st.scopes);
            assert(pop_scope(check_stmts_st(st2, body@)).scopes =~= st.scopes);
        },
        Stmt::ForRange { ty, name, range, body } => {
            let range_ty = match ty {
                Some(t) => t,
                None => Type::Int,
            };
            let p = push_scope(st);
            let st1 = declare(p, name@, range_ty);
            lemma_frame_declare(p, name@, range_ty);
            let st1b = check_expr_st(st1, range);
            lemma_frame_expr(st1, range);
            lemma_frame_trans(p, st1, st1b);
            lemma_frame_stmts(st1b, body@);
            lemma_frame_trans(p, st1b, check_stmts_st(st1b, body@));
            assert(p.scopes.drop_last() =~= st.scopes);
            assert(pop_scope(check_stmts_st(st1b, body@)).scopes =~= st.scopes);
        },
        _ => {},
    }
}

/// A lookup gives the type from the innermost scope that declares the name, and
/// nothing exactly when no scope declares it.
pub proof fn law_lookup_innermost(scopes: Seq<Map<Seq<char>, Type>>, n: Seq<char>)
    ensures
        lookup_in(scopes, n) is None <==> forall|j: int| 0 <= j < scopes.len() ==> !(#[trigger] scopes[j]).contains_key(n),
        lookup_in(scopes, n) matches Some(t) ==> exists|j: int|
            0 <= j < scopes.len() && (#[trigger] scopes[j]).contains_key(n) && scopes[j][n] == t && forall|k: int|
                j < k < scopes.len() ==> !(#[trigger] scopes[k]).contains_key(n),
    decreases scopes.len(),
{
    if scopes.len() > 0 {
        let rest = scopes.drop_last();
        law_lookup_innermost(rest, n);
        let last = scopes.len() - 1;
        if scopes[last].contains_key(n) {
            assert(scopes[last].contains_key(n) && scopes[last][n] == scopes.last()[n]);
        } else {
            assert forall|j: int| 0 <= j < rest.len() implies #[trigger] rest[j] == scopes[j] by {}
            if let Some(t) = lookup_in(rest, n) {
                let j = choose|j: int|
                    0 <= j < rest.len() && (#[trigger] rest[j]).contains_key(n) && rest[j][n] == t && forall|k: int|
                        j < k < rest.len() ==> !(#[trigger] rest[k]).contains_key(n);
                assert(scopes[j].contains_key(n) && scopes[j][n] == t);
                assert forall|k: int| j < k < scopes.len() implies !(#[trigger] scopes[k]).contains_key(n) by {
                    if k < last {
                        assert(scopes[k] == rest[k]);
                    }
                }
            } else {
                assert forall|j: int| 0 <= j < scopes.len() implies !(#[trigger] scopes[j]).contains_key(n) by {
                    if j < last {
                        assert(scopes[j] == rest[j]);
                    }
                }
            }
        }
    }
}

/// Declares names in turn.
pub open spec fn declare_all(st: CheckState, ds: Seq<(Seq<char>, Type)>) -> CheckState
    decreases ds.len(),
{
    if ds.len() == 0 {
        st
    } else {
        declare(declare_all(st, ds.drop_last()), ds.last().0, ds.last().1)
    }
}

proof fn lemma_declare_all_outer(st: CheckState, ds: Seq<(Seq<char>, Type)>)
    ensures
        declare_all(st, ds).scopes.len() == st.scopes.len(),
        declare_all(st, ds).scopes.drop_last() == st.scopes.drop_last(),
        declare_all(st, ds).functions == st.functions,
        declare_all(st, ds).ret == st.ret,
        declare_all(st, ds).errors == st.errors,
    decreases ds.len(),
{
    if ds.len() > 0 {
        lemma_declare_all_outer(st, ds.drop_last());
        let mid = declare_all(st, ds.drop_last());
        assert(declare(mid, ds.last().0, ds.last().1).scopes.drop_last() =~= mid.scopes.drop_last());
    }
}

/// Declarations made between opening and closing a scope do not outlive it:
/// afterwards the scopes, and so every lookup, are as before the scope was opened.
pub proof fn law_scope_discards_declarations(st: CheckState, ds: Seq<(Seq<char>, Type)>)
    ensures
        pop_scope(declare_all(push_scope(st), ds)) == st,
        forall|n: Seq<char>| lookup_in(#[trigger] pop_scope(declare_all(push_scope(st), ds)).scopes, n) == lookup_in(st.scopes, n),
{
    lemma_declare_all_outer(push_scope(st), ds);
    assert(push_scope(st).scopes.drop_last() =~= st.scopes);
    assert(pop_scope(declare_all(push_scope(st), ds)) =~= st);
}

/// Closing a scope when there is none changes nothing.
pub proof fn law_pop_empty(st: CheckState)
    requires
        st.scopes.len() == 0,
    ensures
        pop_scope(st) == st,
{
}

/// Whether an operator is arithmetic.
pub open spec fn is_arithmetic(op: BinaryOp) -> bool {
    op is Add || op is Sub || op is Mul || op is Div || op is Mod || op is Pow
}

/// Whether an operator compares or combines truth values.
pub open spec fn is_comparison_or_logic(op: BinaryOp) -> bool {
    op is Eq || op is Neq || op is Lt || op is Gt || op is Lte || op is Gte || op is And || op is Or
}

/// Arithmetic is `float` exactly when either operand is `float`, and `int`
/// otherwise; so swapping the operands never changes the type.
pub proof fn law_arithmetic_type(
    sc: Seq<Map<Seq<char>, Type>>,
    fns: Map<Seq<char>, (Type, Seq<Type>)>,
    op: BinaryOp,
    l: Expr,
    r: Expr,
)
    requires
        is_arithmetic(op),
    ensures
        ({
            let t = expr_check(sc, fns, Expr::BinaryOp { op, left: Box::new(l), right: Box::new(r) }).0;
            let tl = expr_check(sc, fns, l).0;
            let tr = expr_check(sc, fns, r).0;
            &&& (t == Type::Float <==> (tl == Type::Float || tr == Type::Float))
            &&& (t == Type::Int <==> !(tl == Type::Float || tr == Type::Float))
            &&& t == expr_check(sc, fns, Expr::BinaryOp { op, left: Box::new(r), right: Box::new(l) }).0
        }),
{
}

/// Comparisons and `&&`, `||` are `bool`, whatever the types of their operands.
pub proof fn law_comparison_type(
    sc: Seq<Map<Seq<char>, Type>>,
    fns: Map<Seq<char>, (Type, Seq<Type>)>,
    op: BinaryOp,
    l: Expr,
    r: Expr,
)
    requires
        is_comparison_or_logic(op),
    ensures
        expr_check(sc, fns, Expr::BinaryOp { op, left: Box::new(l), right: Box::new(r) }).0 == Type::Bool,
{
}

/// A name is found in the innermost scope that declares it: a declaration in an
/// inner scope hides an outer one, and closing the inner scope uncovers it again.
pub proof fn law_shadowing(st: CheckState, name: Seq<char>, outer: Type, inner: Type)
    requires
        st.scopes.len() > 0,
    ensures
        lookup_in(declare(push_scope(declare(st, name, outer)), name, inner).scopes, name) == Some(inner),
        lookup_in(pop_scope(declare(push_scope(declare(st, name, outer)), name, inner)).scopes, name) == Some(outer),
{
    let a = declare(st, name, outer);
    let b = declare(push_scope(a), name, inner);
    assert(b.scopes.drop_last() =~= a.scopes);
}

proof fn lemma_items_keep_scopes(st: CheckState, items: Seq<TopLevel>)
    ensures
        check_items_st(st, items).scopes == st.scopes,
        st.errors.len() <= check_items_st(st, items).errors.len(),
        check_items_st(st, items).errors.subrange(0, st.errors.len() as int) == st.errors,
    decreases items.len(),
{
    if items.len() == 0 {
        assert(st.errors.subrange(0, st.errors.len() as int) =~= st.errors);
    } else {
        lemma_items_keep_scopes(st, items.drop_last());
        let mid = check_items_st(st, items.drop_last());
        match items.last() {
            TopLevel::Function { return_ty, params, body, .. } => {
                let p0 = CheckState { ret: Some(return_ty), ..push_scope(mid) };
                lemma_params_frame(p0, params@);
                let st1 = declare_params(p0, params@);
                lemma_frame_stmts(st1, body@);
                let st2 = check_stmts_st(st1, body@);
                lemma_frame_trans(p0, st1, st2);
                assert(p0.scopes.drop_last() =~= mid.scopes);
                let fin = pop_scope(CheckState { ret: None, ..st2 });
                assert(fin.scopes =~= mid.scopes);
                assert(fin.errors.subrange(0, st.errors.len() as int) =~= st.errors);
            },
            _ => {},
        }
    }
}

proof fn lemma_params_frame(st: CheckState, ps: Seq<Param>)
    ensures
        frame(st, declare_params(st, ps)),
    decreases ps.len(),
{
    if ps.len() == 0 {
        lemma_frame_refl(st);
    } else {
        lemma_params_frame(st, ps.drop_last());
        let mid = declare_params(st, ps.drop_last());
        lemma_frame_declare(mid, ps.last().name@, ps.last().ty);
        lemma_frame_trans(st, mid, declare_params(st, ps));
    }
}

} // verus!
