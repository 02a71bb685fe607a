use vstd::prelude::*;
use crate::ast::{BinaryOp, Expr, Literal, Param, Program, Stmt, StringPart, TopLevel, Type, UnaryOp};
use crate::text::{append_int, int_text};
use crate::typechecker::literal_type;

verus! {

// ---------------------------------------------------------------------------
// The C text of each construct.
// ---------------------------------------------------------------------------

/// `n` levels of indentation, four spaces each.
pub open spec fn indent_text(n: nat) -> Seq<char>
    decreases n,
{
    if n == 0 {
        Seq::empty()
    } else {
        indent_text((n - 1) as nat) + "    "@
    }
}

/// One output line at indentation `ind`.
pub open spec fn line_text(ind: nat, s: Seq<char>) -> Seq<char> {
    indent_text(ind) + s + "\n"@
}

/// Whether `gen_type` can generate `t` (array types have no C form yet).
pub open spec fn c_type_ok(t: Type) -> bool
    decreases t,
{
    match t {
        Type::Array(_) => false,
        Type::Nullable(inner) => c_type_ok(*inner),
        _ => true,
    }
}

/// The C type for an Oxide type (a nullable type is its inner type in C).
pub open spec fn c_type(t: Type) -> Seq<char>
    decreases t,
{
    match t {
        Type::Int => "int"@,
        Type::Float => "double"@,
        Type::String => "char*"@,
        Type::Bool => "bool"@,
        Type::Void => "void"@,
        Type::Never => "void"@,
        Type::Nullable(inner) => c_type(*inner),
        Type::Array(_) => Seq::empty(),
        Type::Null => "void*"@,
    }
}

/// The C type guessed from the shape of an initializer (literals only; `int` otherwise).
pub open spec fn inferred_c_type(e: Expr) -> Seq<char> {
    match e {
        Expr::Literal(Literal::Int(_)) => "int"@,
        Expr::Literal(Literal::Float(_)) => "double"@,
        Expr::Literal(Literal::String(_)) => "char*"@,
        Expr::Literal(Literal::Bool(_)) => "bool"@,
        Expr::Literal(Literal::Null) => "void*"@,
        _ => "int"@,
    }
}

/// The texts of a list joined by `sep`.
pub open spec fn join(parts: Seq<Seq<char>>, sep: Seq<char>) -> Seq<char>
    decreases parts.len(),
{
    if parts.len() == 0 {
        Seq::empty()
    } else if parts.len() == 1 {
        parts[0]
    } else {
        join(parts.drop_last(), sep) + sep + parts.last()
    }
}

/// The C operator of a binary operator that is printed infix.
pub open spec fn binop_text(op: BinaryOp) -> Seq<char> {
    match op {
        BinaryOp::Add => "+"@,
        BinaryOp::Sub => "-"@,
        BinaryOp::Mul => "*"@,
        BinaryOp::Div => "/"@,
        BinaryOp::Mod => "%"@,
        BinaryOp::Eq => "=="@,
        BinaryOp::Neq => "!="@,
        BinaryOp::Lt => "<"@,
        BinaryOp::Gt => ">"@,
        BinaryOp::Lte => "<="@,
        BinaryOp::Gte => ">="@,
        BinaryOp::And => "&&"@,
        BinaryOp::Or => "||"@,
        _ => ""@,
    }
}

/// The C text of a literal.
pub open spec fn literal_c(lit: Literal) -> Seq<char> {
    match lit {
        Literal::Int(n) => int_text(n as int),
        Literal::Float(f) => f.display@,
        Literal::String(s) => "\""@ + s@ + "\""@,
        Literal::Bool(b) => if b { "true"@ } else { "false"@ },
        Literal::Null => "NULL"@,
    }
}

/// The printf format of an interpolated string: its literal parts, with `%s`
/// in place of each embedded expression.
pub open spec fn interp_format(parts: Seq<StringPart>) -> Seq<char>
    decreases parts.len(),
{
    if parts.len() == 0 {
        Seq::empty()
    } else {
        interp_format(parts.drop_last()) + match parts.last() {
            StringPart::Literal(s) => s@,
            StringPart::Expr(_) => "%s"@,
        }
    }
}

/// The C texts of the expressions embedded in an interpolated string.
pub open spec fn interp_args(parts: Seq<StringPart>) -> Seq<Seq<char>>
    decreases parts, 0nat,
{
    if parts.len() == 0 {
        Seq::empty()
    } else {
        let rest = interp_args(parts.drop_last());
        match parts.last() {
            StringPart::Literal(_) => rest,
            StringPart::Expr(e) => rest.push(expr_c(*e)),
        }
    }
}

/// The C texts of a list of expressions.
pub open spec fn exprs_c(es: Seq<Expr>) -> Seq<Seq<char>>
    decreases es, 0nat,
{
    if es.len() == 0 {
        Seq::empty()
    } else {
        exprs_c(es.drop_last()).push(expr_c(es.last()))
    }
}

/// The C text of a call of `println` with first argument `arg`.
pub open spec fn println_c(arg: Expr) -> Seq<char>
    decreases arg, 2nat,
{
    match arg {
        Expr::StringInterp(parts) => {
            let fmt = interp_format(parts@);
            let args = join(interp_args(parts@), ", "@);
            if args.len() == 0 {
                "printf(\""@ + fmt + "\\n\")"@
            } else {
                "printf(\""@ + fmt + "\\n\", "@ + args + ")"@
            }
        },
        Expr::Literal(Literal::String(_)) => "printf(\"%s\\n\", "@ + expr_c(arg) + ")"@,
        _ => "printf(\"%d\\n\", "@ + expr_c(arg) + ")"@,
    }
}

/// The C text of an expression.
pub open spec fn expr_c(e: Expr) -> Seq<char>
    decreases e, 1nat,
{
    match e {
        Expr::Literal(lit) => literal_c(lit),
        Expr::StringInterp(parts) => "\""@ + interp_format(parts@) + "\""@,
        Expr::Ident(name) => name@,
        Expr::BinaryOp { op, left, right } => {
            let l = expr_c(*left);
            let r = expr_c(*right);
            match op {
                BinaryOp::NullCoalesce => "("@ + l + " != NULL ? "@ + l + " : "@ + r + ")"@,
                BinaryOp::Pow => "pow("@ + l + ", "@ + r + ")"@,
                BinaryOp::Range | BinaryOp::RangeInclusive => r,
                _ => "("@ + l + " "@ + binop_text(op) + " "@ + r + ")"@,
            }
        },
        Expr::UnaryOp { op, expr } => {
            let x = expr_c(*expr);
            match op {
                UnaryOp::Not => "(!"@ + x + ")"@,
                UnaryOp::Neg => "(-"@ + x + ")"@,
                UnaryOp::PostIncrement => x + "++"@,
                UnaryOp::PostDecrement => x + "--"@,
            }
        },
        Expr::Call { name, args } => {
            let args_str = join(exprs_c(args@), ", "@);
            if name@ == "println"@ {
                if args@.len() == 0 {
                    "printf(\"\\n\")"@
                } else {
                    println_c(args@[0])
                }
            } else if name@ == "printf"@ {
                "printf("@ + args_str + ")"@
            } else if name@ == "sprintf"@ {
                "sprintf("@ + args_str + ")"@
            } else {
                name@ + "("@ + args_str + ")"@
            }
        },
        Expr::FieldAccess { object, field } => expr_c(*object) + "."@ + field@,
        Expr::MethodCall { object, method, args } => {
            let obj = expr_c(*object);
            obj + "_"@ + method@ + "("@ + obj + ", "@ + join(exprs_c(args@), ", "@) + ")"@
        },
        Expr::Index { array, index } => expr_c(*array) + "["@ + expr_c(*index) + "]"@,
    }
}


/// The C type written for a declaration with optional type `ty` and initializer `value`.
pub open spec fn decl_type_c(ty: Option<Type>, value: Expr) -> Seq<char> {
    match ty {
        Some(t) => c_type(t),
        None => inferred_c_type(value),
    }
}

/// The C text of a statement in the header of a `for` loop (no `;`, no line break);
/// statements other than declarations, assignments and expressions give nothing.
pub open spec fn inline_stmt_c(s: Stmt) -> Seq<char> {
    match s {
        Stmt::VarDecl { ty, name, value, is_const } =>
            (if is_const { "const "@ } else { Seq::empty() }) + decl_type_c(ty, value) + " "@ + name@
                + " = "@ + expr_c(value),
        Stmt::Expr(e) => expr_c(e),
        Stmt::Assign { name, value } => name@ + " = "@ + expr_c(value),
        _ => Seq::empty(),
    }
}

/// The bounds of a range expression: start, end and whether the end is included.
pub open spec fn range_parts(e: Expr) -> (Seq<char>, Seq<char>, bool) {
    match e {
        Expr::BinaryOp { op, left, right } => (
            expr_c(*left),
            expr_c(*right),
            op == BinaryOp::RangeInclusive,
        ),
        _ => ("0"@, "0"@, false),
    }
}

/// The C lines of a statement at indentation `ind`.
pub open spec fn stmt_c(ind: nat, s: Stmt) -> Seq<char>
    decreases s, 1nat,
{
    match s {
        Stmt::VarDecl { ty, name, value, is_const } => line_text(
            ind,
            (if is_const { "const "@ } else { Seq::empty() }) + decl_type_c(ty, value) + " "@ + name@
                + " = "@ + expr_c(value) + ";"@,
        ),
        Stmt::Assign { name, value } => line_text(ind, name@ + " = "@ + expr_c(value) + ";"@),
        Stmt::Return(e) => match e {
            Some(e) => line_text(ind, "return "@ + expr_c(e) + ";"@),
            None => line_text(ind, "return;"@),
        },
        Stmt::Expr(e) => line_text(ind, expr_c(e) + ";"@),
        Stmt::If { condition, then_block, else_block } => line_text(
            ind,
            "if ("@ + expr_c(condition) + ") {"@,
        ) + stmts_c(ind + 1, then_block@) + match else_block {
            Some(es) => line_text(ind, "} else {"@) + stmts_c(ind + 1, es@) + line_text(ind, "}"@),
            None => line_text(ind, "}"@),
        },
        Stmt::While { condition, body } => line_text(ind, "while ("@ + expr_c(condition) + ") {"@)
            + stmts_c(ind + 1, body@) + line_text(ind, "}"@),
        Stmt::For { init, condition, step, body } => line_text(
            ind,
            "for ("@ + inline_stmt_c(*init) + " "@ + expr_c(condition) + "; "@ + inline_stmt_c(*step)
                + ") {"@,
        ) + stmts_c(ind + 1, body@) + line_text(ind, "}"@),
        Stmt::ForRange { ty, name, range, body } => {
            let ty_str = match ty {
                Some(t) => c_type(t),
                None => "int"@,
            };
            let (start, end, inclusive) = range_parts(range);
            let rel = if inclusive { "<="@ } else { "<"@ };
            line_text(
                ind,
                "for ("@ + ty_str + " "@ + name@ + " = "@ + start + "; "@ + name@ + " "@ + rel + " "@ + end
                    + "; "@ + name@ + "++) {"@,
            ) + stmts_c(ind + 1, body@) + line_text(ind, "}"@)
        },
    }
}

/// The C lines of a sequence of statements at indentation `ind`.
pub open spec fn stmts_c(ind: nat, ss: Seq<Stmt>) -> Seq<char>
    decreases ss, 0nat,
{
    if ss.len() == 0 {
        Seq::empty()
    } else {
        stmts_c(ind, ss.drop_last()) + stmt_c(ind, ss.last())
    }
}

/// Whether the types that a declaration names can be generated.
pub open spec fn decl_ok(ty: Option<Type>) -> bool {
    match ty {
        Some(t) => c_type_ok(t),
        None => true,
    }
}

/// Whether the statement in a `for` header can be generated.
pub open spec fn inline_ok(s: Stmt) -> bool {
    match s {
        Stmt::VarDecl { ty, .. } => decl_ok(ty),
        _ => true,
    }
}

/// Whether every type that a statement names can be generated.
pub open spec fn stmt_ok(s: Stmt) -> bool
    decreases s, 1nat,
{
    match s {
        Stmt::VarDecl { ty, .. } => decl_ok(ty),
        Stmt::If { then_block, else_block, .. } => stmts_ok(then_block@) && match else_block {
            Some(es) => stmts_ok(es@),
            None => true,
        },
        Stmt::While { body, .. } => stmts_ok(body@),
        Stmt::For { init, step, body, .. } => inline_ok(*init) && inline_ok(*step) && stmts_ok(body@),
        Stmt::ForRange { ty, body, .. } => decl_ok(ty) && stmts_ok(body@),
        _ => true,
    }
}

pub open spec fn stmts_ok(ss: Seq<Stmt>) -> bool
    decreases ss, 0nat,
{
    if ss.len() == 0 {
        true
    } else {
        stmts_ok(ss.drop_last()) && stmt_ok(ss.last())
    }
}

/// How deeply blocks nest inside a statement.
pub open spec fn stmt_depth(s: Stmt) -> nat
    decreases s, 1nat,
{
    match s {
        Stmt::If { then_block, else_block, .. } => 1 + {
            let a = stmts_depth(then_block@);
            let b = match else_block {
                Some(es) => stmts_depth(es@),
                None => 0,
            };
            if a >= b { a } else { b }
        },
        Stmt::While { body, .. } => 1 + stmts_depth(body@),
        Stmt::For { body, .. } => 1 + stmts_depth(body@),
        Stmt::ForRange { body, .. } => 1 + stmts_depth(body@),
        _ => 0,
    }
}

pub open spec fn stmts_depth(ss: Seq<Stmt>) -> nat
    decreases ss, 0nat,
{
    if ss.len() == 0 {
        0
    } else {
        let a = stmts_depth(ss.drop_last());
        let b = stmt_depth(ss.last());
        if a >= b { a } else { b }
    }
}

/// The C parameter list of a function.
pub open spec fn param_c(p: Param) -> Seq<char> {
    c_type(p.ty) + (if p.by_ref || p.by_const_ref { "* "@ } else { " "@ }) + p.name@
}

pub open spec fn params_c(ps: Seq<Param>) -> Seq<Seq<char>>
    decreases ps.len(),
{
    if ps.len() == 0 {
        Seq::empty()
    } else {
        params_c(ps.drop_last()).push(param_c(ps.last()))
    }
}

/// The C text of a function definition at indentation `ind`; `main` returns `int`
/// and ends with `return 0;`.
pub open spec fn function_c(
    ind: nat,
    return_ty: Type,
    name: Seq<char>,
    params: Seq<Param>,
    body: Seq<Stmt>,
) -> Seq<char> {
    let is_main = name == "main"@;
    let ret = if is_main { "int"@ } else { c_type(return_ty) };
    let params_str = if params.len() == 0 { "void"@ } else { join(params_c(params), ", "@) };
    let noreturn = if return_ty == Type::Never { "__attribute__((noreturn)) "@ } else { Seq::empty() };
    line_text(ind, noreturn + ret + " "@ + name + "("@ + params_str + ") {"@) + stmts_c(ind + 1, body)
        + (if is_main { line_text(ind + 1, "return 0;"@) } else { Seq::empty() }) + line_text(ind, "}"@)
        + line_text(ind, Seq::empty())
}

/// Whether a function definition can be generated.
pub open spec fn function_ok(ind: nat, return_ty: Type, name: Seq<char>, params: Seq<Param>, body: Seq<Stmt>) -> bool {
    &&& (name != "main"@ ==> c_type_ok(return_ty))
    &&& forall|i: int| 0 <= i < params.len() ==> c_type_ok(#[trigger] params[i].ty)
    &&& stmts_ok(body)
    &&& ind + 1 + stmts_depth(body) <= usize::MAX
}

/// Whether a top-level item can be generated: only functions can.
pub open spec fn top_level_ok(ind: nat, item: TopLevel) -> bool {
    match item {
        TopLevel::Function { return_ty, name, params, body } => function_ok(ind, return_ty, name@, params@, body@),
        _ => false,
    }
}

/// The C text of a top-level item.
pub open spec fn top_level_c(ind: nat, item: TopLevel) -> Seq<char> {
    match item {
        TopLevel::Function { return_ty, name, params, body } => function_c(ind, return_ty, name@, params@, body@),
        _ => Seq::empty(),
    }
}

pub open spec fn items_c(ind: nat, items: Seq<TopLevel>) -> Seq<char>
    decreases items.len(),
{
    if items.len() == 0 {
        Seq::empty()
    } else {
        items_c(ind, items.drop_last()) + top_level_c(ind, items.last())
    }
}

/// The C headers that every generated file starts with.
pub open spec fn headers_c(ind: nat) -> Seq<char> {
    line_text(ind, "#include <stdio.h>"@) + line_text(ind, "#include <stdlib.h>"@) + line_text(
        ind,
        "#include <string.h>"@,
    ) + line_text(ind, "#include <stdbool.h>"@) + line_text(ind, Seq::empty())
}

/// The C text of a program, emitted at indentation `ind`.
pub open spec fn program_c(ind: nat, p: Program) -> Seq<char> {
    headers_c(ind) + items_c(ind, p.items@)
}

/// Whether every item of the program can be generated.
pub open spec fn program_ok(ind: nat, p: Program) -> bool {
    forall|i: int| 0 <= i < p.items@.len() ==> top_level_ok(ind, #[trigger] p.items@[i])
}

} // verus!

verus! {

/// Generating items is compositional: the C text of `a` then `b` is the C text of
/// `a` followed by that of `b`.
pub proof fn law_items_concat(ind: nat, a: Seq<TopLevel>, b: Seq<TopLevel>)
    ensures
        items_c(ind, a + b) == items_c(ind, a) + items_c(ind, b),
    decreases b.len(),
{
    if b.len() == 0 {
        assert(a + b =~= a);
        assert(items_c(ind, a) + Seq::<char>::empty() =~= items_c(ind, a));
    } else {
        assert((a + b).drop_last() =~= a + b.drop_last());
        assert((a + b).last() == b.last());
        law_items_concat(ind, a, b.drop_last());
        assert(items_c(ind, a) + items_c(ind, b.drop_last()) + top_level_c(ind, b.last()) =~= items_c(ind, a) + (
        items_c(ind, b.drop_last()) + top_level_c(ind, b.last())));
    }
}

/// Every generated file starts with the standard headers.
pub proof fn law_program_starts_with_headers(ind: nat, p: Program)
    ensures
        program_c(ind, p).subrange(0, headers_c(ind).len() as int) == headers_c(ind),
{
    assert(program_c(ind, p).subrange(0, headers_c(ind).len() as int) =~= headers_c(ind));
}

/// The C type guessed for a declaration without a type is the C form of the type
/// that the checker gives its initializer when that is a literal, and `int` otherwise.
pub proof fn law_inferred_type_agrees(e: Expr)
    ensures
        inferred_c_type(e) == match e {
            Expr::Literal(lit) => c_type(literal_type(lit)),
            _ => "int"@,
        },
{
}

proof fn lemma_line_start(ind: nat, x: Seq<char>, rest: Seq<char>)
    ensures
        (line_text(ind, x) + rest).len() > indent_text(ind).len(),
        (line_text(ind, x) + rest).subrange(0, indent_text(ind).len() as int) == indent_text(ind),
{
    reveal_strlit("\n");
    assert((line_text(ind, x) + rest).subrange(0, indent_text(ind).len() as int) =~= indent_text(ind));
}

proof fn lemma_line_end(a: Seq<char>, ind: nat, x: Seq<char>)
    ensures
        (a + line_text(ind, x)).last() == '\n',
{
    reveal_strlit("\n");
}

/// The C text of a statement is whole lines: it is not empty, starts with the
/// indentation of its level and ends with a line break.
pub proof fn law_stmt_lines(ind: nat, s: Stmt)
    ensures
        stmt_c(ind, s).len() > indent_text(ind).len(),
        stmt_c(ind, s).subrange(0, indent_text(ind).len() as int) == indent_text(ind),
        stmt_c(ind, s).last() == '\n',
{
    let t = stmt_c(ind, s);
    match s {
        Stmt::If { condition, then_block, else_block } => {
            let head = "if ("@ + expr_c(condition) + ") {"@;
            let body = stmts_c(ind + 1, then_block@);
            let tail = match else_block {
                Some(es) => line_text(ind, "} else {"@) + stmts_c(ind + 1, es@) + line_text(ind, "}"@),
                None => line_text(ind, "}"@),
            };
            assert(t == line_text(ind, head) + (body + tail));
            lemma_line_start(ind, head, body + tail);
            match else_block {
                Some(es) => lemma_line_end(line_text(ind, head) + body + line_text(ind, "} else {"@) + stmts_c(ind + 1, es@), ind, "}"@),
                None => lemma_line_end(line_text(ind, head) + body, ind, "}"@),
            }
        },
        Stmt::While { condition, body } => {
            let head = "while ("@ + expr_c(condition) + ") {"@;
            let b = stmts_c(ind + 1, body@);
            assert(t == line_text(ind, head) + (b + line_text(ind, "}"@)));
            lemma_line_start(ind, head, b + line_text(ind, "}"@));
            lemma_line_end(line_text(ind, head) + b, ind, "}"@);
        },
        Stmt::For { init, condition, step, body } => {
            let head = "for ("@ + inline_stmt_c(*init) + " "@ + expr_c(condition) + "; "@ + inline_stmt_c(*step) + ") {"@;
            let b = stmts_c(ind + 1, body@);
            assert(t == line_text(ind, head) + (b + line_text(ind, "}"@)));
            lemma_line_start(ind, head, b + line_text(ind, "}"@));
            lemma_line_end(line_text(ind, head) + b, ind, "}"@);
        },
        Stmt::ForRange { ty, name, range, body } => {
            let ty_str = match ty {
                Some(t) => c_type(t),
                None => "int"@,
            };
            let (start, end, inclusive) = range_parts(range);
            let rel = if inclusive { "<="@ } else { "<"@ };
            let head = "for ("@ + ty_str + " "@ + name@ + " = "@ + start + "; "@ + name@ + " "@ + rel + " "@ + end
                + "; "@ + name@ + "++) {"@;
            let b = stmts_c(ind + 1, body@);
            assert(t == line_text(ind, head) + (b + line_text(ind, "}"@)));
            lemma_line_start(ind, head, b + line_text(ind, "}"@));
            lemma_line_end(line_text(ind, head) + b, ind, "}"@);
        },
        _ => {
            let x = match s {
                Stmt::VarDecl { ty, name, value, is_const } => (if is_const { "const "@ } else { Seq::empty() })
                    + decl_type_c(ty, value) + " "@ + name@ + " = "@ + expr_c(value) + ";"@,
                Stmt::Assign { name, value } => name@ + " = "@ + expr_c(value) + ";"@,
                Stmt::Return(Some(e)) => "return "@ + expr_c(e) + ";"@,
                Stmt::Return(None) => "return;"@,
                Stmt::Expr(e) => expr_c(e) + ";"@,
                _ => Seq::empty(),
            };
            assert(t == line_text(ind, x));
            assert(t == line_text(ind, x) + Seq::<char>::empty());
            lemma_line_start(ind, x, Seq::empty());
            assert(t == Seq::<char>::empty() + line_text(ind, x));
            lemma_line_end(Seq::empty(), ind, x);
        },
    }
}

/// The text of a list of lines, each with its indentation level.
pub open spec fn lines_text(ls: Seq<(nat, Seq<char>)>) -> Seq<char>
    decreases ls.len(),
{
    if ls.len() == 0 {
        Seq::empty()
    } else {
        lines_text(ls.drop_last()) + line_text(ls.last().0, ls.last().1)
    }
}

/// The first line of a statement, at its own level.
pub open spec fn stmt_head(s: Stmt) -> Seq<char> {
    match s {
        Stmt::VarDecl { ty, name, value, is_const } => (if is_const { "const "@ } else { Seq::empty() })
            + decl_type_c(ty, value) + " "@ + name@ + " = "@ + expr_c(value) + ";"@,
        Stmt::Assign { name, value } => name@ + " = "@ + expr_c(value) + ";"@,
        Stmt::Return(Some(e)) => "return "@ + expr_c(e) + ";"@,
        Stmt::Return(None) => "return;"@,
        Stmt::Expr(e) => expr_c(e) + ";"@,
        Stmt::If { condition, .. } => "if ("@ + expr_c(condition) + ") {"@,
        Stmt::While { condition, .. } => "while ("@ + expr_c(condition) + ") {"@,
        Stmt::For { init, condition, step, .. } => "for ("@ + inline_stmt_c(*init) + " "@ + expr_c(condition)
            + "; "@ + inline_stmt_c(*step) + ") {"@,
        Stmt::ForRange { ty, name, range, .. } => {
            let ty_str = match ty {
                Some(t) => c_type(t),
                None => "int"@,
            };
            let (start, end, inclusive) = range_parts(range);
            let rel = if inclusive { "<="@ } else { "<"@ };
            "for ("@ + ty_str + " "@ + name@ + " = "@ + start + "; "@ + name@ + " "@ + rel + " "@ + end + "; "@
                + name@ + "++) {"@
        },
    }
}

/// The lines of a statement at level `ind`: its first line, then the lines of its
/// blocks one level deeper, with the closing (and `else`) lines at its own level.
pub open spec fn stmt_lines(ind: nat, s: Stmt) -> Seq<(nat, Seq<char>)>
    decreases s, 1nat,
{
    let head = seq![(ind, stmt_head(s))];
    let close = seq![(ind, "}"@)];
    match s {
        Stmt::If { then_block, else_block, .. } => head + stmts_lines(ind + 1, then_block@) + match else_block {
            Some(es) => seq![(ind, "} else {"@)] + stmts_lines(ind + 1, es@) + close,
            None => close,
        },
        Stmt::While { body, .. } => head + stmts_lines(ind + 1, body@) + close,
        Stmt::For { body, .. } => head + stmts_lines(ind + 1, body@) + close,
        Stmt::ForRange { body, .. } => head + stmts_lines(ind + 1, body@) + close,
        _ => head,
    }
}

pub open spec fn stmts_lines(ind: nat, ss: Seq<Stmt>) -> Seq<(nat, Seq<char>)>
    decreases ss, 0nat,
{
    if ss.len() == 0 {
        Seq::empty()
    } else {
        stmts_lines(ind, ss.drop_last()) + stmt_lines(ind, ss.last())
    }
}

proof fn lemma_lines_concat(a: Seq<(nat, Seq<char>)>, b: Seq<(nat, Seq<char>)>)
    ensures
        lines_text(a + b) == lines_text(a) + lines_text(b),
    decreases b.len(),
{
    if b.len() == 0 {
        assert(a + b =~= a);
        assert(lines_text(a) + Seq::<char>::empty() =~= lines_text(a));
    } else {
        assert((a + b).drop_last() =~= a + b.drop_last());
        lemma_lines_concat(a, b.drop_last());
        assert(lines_text(a) + lines_text(b.drop_last()) + line_text(b.last().0, b.last().1) =~= lines_text(a) + (
        lines_text(b.drop_last()) + line_text(b.last().0, b.last().1)));
    }
}

proof fn lemma_one_line(k: nat, x: Seq<char>)
    ensures
        lines_text(seq![(k, x)]) == line_text(k, x),
{
    let ls = seq![(k, x)];
    assert(ls.drop_last() =~= Seq::<(nat, Seq<char>)>::empty());
    assert(lines_text(ls.drop_last()) == Seq::<char>::empty());
    assert(ls.last() == (k, x));
    assert(Seq::<char>::empty() + line_text(k, x) =~= line_text(k, x));
}

/// Whether every line of a list is indented at least `ind` levels.
pub open spec fn all_at_least(ls: Seq<(nat, Seq<char>)>, ind: nat) -> bool {
    forall|i: int| 0 <= i < ls.len() ==> (#[trigger] ls[i]).0 >= ind
}

proof fn lemma_stmt_lines(ind: nat, s: Stmt)
    ensures
        stmt_c(ind, s) == lines_text(stmt_lines(ind, s)),
        all_at_least(stmt_lines(ind, s), ind),
    decreases s, 1nat,
{
    let head = seq![(ind, stmt_head(s))];
    let close = seq![(ind, "}"@)];
    lemma_one_line(ind, stmt_head(s));
    lemma_one_line(ind, "}"@);
    match s {
        Stmt::If { then_block, else_block, .. } => {
            lemma_stmts_lines(ind + 1, then_block@);
            let a = head + stmts_lines(ind + 1, then_block@);
            lemma_lines_concat(head, stmts_lines(ind + 1, then_block@));
            match else_block {
                Some(es) => {
                    lemma_stmts_lines(ind + 1, es@);
                    let e0 = seq![(ind, "} else {"@)];
                    lemma_one_line(ind, "} else {"@);
                    lemma_lines_concat(e0, stmts_lines(ind + 1, es@));
                    lemma_lines_concat(e0 + stmts_lines(ind + 1, es@), close);
                    lemma_lines_concat(a, e0 + stmts_lines(ind + 1, es@) + close);
                    assert(stmt_c(ind, s) =~= lines_text(stmt_lines(ind, s)));
                },
                None => {
                    lemma_lines_concat(a, close);
                    assert(stmt_c(ind, s) =~= lines_text(stmt_lines(ind, s)));
                },
            }
        },
        Stmt::While { body, .. } => {
            lemma_stmts_lines(ind + 1, body@);
            lemma_lines_concat(head, stmts_lines(ind + 1, body@));
            lemma_lines_concat(head + stmts_lines(ind + 1, body@), close);
            assert(stmt_c(ind, s) =~= lines_text(stmt_lines(ind, s)));
        },
        Stmt::For { body, .. } => {
            lemma_stmts_lines(ind + 1, body@);
            lemma_lines_concat(head, stmts_lines(ind + 1, body@));
            lemma_lines_concat(head + stmts_lines(ind + 1, body@), close);
            assert(stmt_c(ind, s) =~= lines_text(stmt_lines(ind, s)));
        },
        Stmt::ForRange { body, .. } => {
            lemma_stmts_lines(ind + 1, body@);
            lemma_lines_concat(head, stmts_lines(ind + 1, body@));
            lemma_lines_concat(head + stmts_lines(ind + 1, body@), close);
            assert(stmt_c(ind, s) =~= lines_text(stmt_lines(ind, s)));
        },
        _ => {},
    }
}

proof fn lemma_stmts_lines(ind: nat, ss: Seq<Stmt>)
    ensures
        stmts_c(ind, ss) == lines_text(stmts_lines(ind, ss)),
        all_at_least(stmts_lines(ind, ss), ind),
    decreases ss, 0nat,
{
    if ss.len() > 0 {
        lemma_stmts_lines(ind, ss.drop_last());
        lemma_stmt_lines(ind, ss.last());
        lemma_lines_concat(stmts_lines(ind, ss.drop_last()), stmt_lines(ind, ss.last()));
    }
}

/// The C text of statements at level `ind` is a run of whole lines, each indented at
/// least `ind` levels (deeper inside blocks). Where no name or literal in them holds
/// a line break, these are exactly the lines of the text.
pub proof fn law_stmts_are_indented_lines(ind: nat, ss: Seq<Stmt>)
    ensures
        stmts_c(ind, ss) == lines_text(stmts_lines(ind, ss)),
        forall|i: int| 0 <= i < stmts_lines(ind, ss).len() ==> (#[trigger] stmts_lines(ind, ss)[i]).0 >= ind,
{
    lemma_stmts_lines(ind, ss);
}

/// Whether C writes an operator between its operands.
pub open spec fn infix_in_c(op: BinaryOp) -> bool {
    !(op is Pow || op is NullCoalesce || op is Range || op is RangeInclusive)
}

/// The C text of an infix operator is the source spelling of the token it was parsed
/// from: lexing it gives back exactly that one token.
pub proof fn law_c_operator_is_source_spelling(t: crate::lexer::token::Token)
    requires
        crate::parser::laws::op_of(t) is Some,
        infix_in_c(crate::parser::laws::op_of(t).unwrap()),
    ensures
        crate::lexer::spec::lex(binop_text(crate::parser::laws::op_of(t).unwrap())) == seq![
            crate::lexer::spec::Lexeme::Tok(
                crate::lexer::spec::Pat::Fixed(t),
                binop_text(crate::parser::laws::op_of(t).unwrap()),
            ),
        ],
{
    reveal_strlit("+");
    reveal_strlit("-");
    reveal_strlit("*");
    reveal_strlit("/");
    reveal_strlit("%");
    reveal_strlit("==");
    reveal_strlit("!=");
    reveal_strlit("<");
    reveal_strlit(">");
    reveal_strlit("<=");
    reveal_strlit(">=");
    reveal_strlit("&&");
    reveal_strlit("||");
    let w = binop_text(crate::parser::laws::op_of(t).unwrap());
    assert(crate::lexer::spec::fixed_token(w) == Some(t));
    crate::lexer::laws::law_single_word(w, crate::lexer::spec::Pat::Fixed(t));
}

/// The C text of `!x` and `-x` is the prefix operator, spelled as in the source,
/// applied to `x` in parentheses: the parser gives the operator of the token, and the
/// generator writes that token's spelling back.
pub proof fn law_prefix_operator_round_trip(t: crate::lexer::token::Token, x: String)
    requires
        t == crate::lexer::token::Token::Not || t == crate::lexer::token::Token::Minus,
    ensures
        crate::parser::spec::p_expr(seq![t, crate::lexer::token::Token::Ident(x)], 0) matches
            crate::parser::spec::Parsed::Done(v, p) && p == 2 && exists|w: Seq<char>|
            #![trigger crate::lexer::spec::lex(w)]
            crate::lexer::spec::lex(w) == seq![crate::lexer::spec::Lexeme::Tok(crate::lexer::spec::Pat::Fixed(t), w)]
                && forall|e: Expr| #[trigger] e@ == v ==> expr_c(e) == "("@ + w + x@ + ")"@,
{
    let toks = seq![t, crate::lexer::token::Token::Ident(x)];
    assert(crate::parser::spec::tok_at(toks, 0) == Some(t));
    assert(crate::parser::spec::tok_at(toks, 1) == Some(crate::lexer::token::Token::Ident(x)));
    assert(crate::parser::spec::tok_at(toks, 2) is None);
    let ex = crate::ast::ExprV::Ident(x);
    assert(crate::parser::spec::p_ident_expr(toks, 1) == crate::parser::spec::Parsed::Done(ex, 2));
    assert(crate::parser::spec::p_primary(toks, 1) == crate::parser::spec::Parsed::Done(ex, 2));
    assert(crate::parser::spec::p_unary(toks, 1) == crate::parser::spec::Parsed::Done(ex, 2));
    let op = if t == crate::lexer::token::Token::Not { UnaryOp::Not } else { UnaryOp::Neg };
    let v = crate::ast::ExprV::UnaryOp { op, expr: Box::new(ex) };
    assert(crate::parser::spec::p_unary(toks, 0) == crate::parser::spec::Parsed::Done(v, 2));
    assert(crate::parser::spec::p_binary_rest(toks, 2, 0, v) == crate::parser::spec::Parsed::Done(v, 2));
    assert(crate::parser::spec::p_binary(toks, 0, 0) == crate::parser::spec::Parsed::Done(v, 2));
    let w: Seq<char> = if t == crate::lexer::token::Token::Not { seq!['!'] } else { seq!['-'] };
    assert(crate::lexer::spec::fixed_token(w) == Some(t));
    crate::lexer::laws::law_single_word(w, crate::lexer::spec::Pat::Fixed(t));
    reveal_strlit("(!");
    reveal_strlit("(-");
    reveal_strlit("(");
    assert forall|e: Expr| #[trigger] e@ == v implies expr_c(e) == "("@ + w + x@ + ")"@ by {
        match e {
            Expr::UnaryOp { op: eop, expr } => {
                assert(eop == op);
                assert(crate::ast::expr_view(*expr) == ex);
                match *expr {
                    Expr::Ident(n) => assert(n == x),
                    _ => assert(false),
                }
                assert(expr_c(*expr) == x@);
                assert("(!"@ =~= "("@ + seq!['!']);
                assert("(-"@ =~= "("@ + seq!['-']);
                assert(expr_c(e) =~= "("@ + w + x@ + ")"@);
            },
            _ => {},
        }
    }
}

/// Facts about joining that the generators use.
proof fn lemma_join_push(parts: Seq<Seq<char>>, sep: Seq<char>, x: Seq<char>)
    ensures
        join(parts.push(x), sep) == if parts.len() == 0 { x } else { join(parts, sep) + sep + x },
{
    assert(parts.push(x).drop_last() =~= parts);
}

proof fn lemma_exprs_c_take(es: Seq<Expr>, i: int)
    requires
        0 <= i < es.len(),
    ensures
        exprs_c(es.take(i + 1)) == exprs_c(es.take(i)).push(expr_c(es[i])),
        exprs_c(es.take(i)).len() == i,
    decreases i,
{
    assert(es.take(i + 1).drop_last() =~= es.take(i));
    if i > 0 {
        lemma_exprs_c_take(es, i - 1);
    }
}

proof fn lemma_interp_take(parts: Seq<StringPart>, i: int)
    requires
        0 <= i < parts.len(),
    ensures
        interp_format(parts.take(i + 1)) == interp_format(parts.take(i)) + match parts[i] {
            StringPart::Literal(s) => s@,
            StringPart::Expr(_) => "%s"@,
        },
        interp_args(parts.take(i + 1)) == match parts[i] {
            StringPart::Literal(_) => interp_args(parts.take(i)),
            StringPart::Expr(e) => interp_args(parts.take(i)).push(expr_c(*e)),
        },
{
    assert(parts.take(i + 1).drop_last() =~= parts.take(i));
}

proof fn lemma_stmts_c_take(ind: nat, ss: Seq<Stmt>, i: int)
    requires
        0 <= i < ss.len(),
    ensures
        stmts_c(ind, ss.take(i + 1)) == stmts_c(ind, ss.take(i)) + stmt_c(ind, ss[i]),
{
    assert(ss.take(i + 1).drop_last() =~= ss.take(i));
}

proof fn lemma_stmts_facts(ss: Seq<Stmt>, i: int)
    requires
        0 <= i < ss.len(),
        stmts_ok(ss),
    ensures
        stmt_ok(ss[i]),
        stmt_depth(ss[i]) <= stmts_depth(ss),
    decreases ss.len(),
{
    if i < ss.len() - 1 {
        lemma_stmts_facts(ss.drop_last(), i);
    }
}

/// Whether `gen_type` can generate `t`.
fn type_ok(t: &Type) -> (b: bool)
    ensures
        b == c_type_ok(*t),
    decreases t,
{
    match t {
        Type::Array(_) => false,
        Type::Nullable(inner) => type_ok(inner),
        _ => true,
    }
}

fn opt_type_ok(ty: &Option<Type>) -> (b: bool)
    ensures
        b == decl_ok(*ty),
{
    match ty {
        Some(t) => type_ok(t),
        None => true,
    }
}

fn inline_stmt_ok(s: &Stmt) -> (b: bool)
    ensures
        b == inline_ok(*s),
{
    match s {
        Stmt::VarDecl { ty, .. } => opt_type_ok(ty),
        _ => true,
    }
}

/// Whether a statement can be generated with at most `room` further levels of nesting.
fn stmt_fits(s: &Stmt, room: usize) -> (b: bool)
    ensures
        b == (stmt_ok(*s) && stmt_depth(*s) <= room),
    decreases s, 1nat,
{
    match s {
        Stmt::VarDecl { ty, .. } => opt_type_ok(ty),
        Stmt::If { then_block, else_block, .. } => {
            if room == 0 {
                return false;
            }
            let a = stmts_fit(then_block, room - 1);
            let b = match else_block {
                Some(es) => stmts_fit(es, room - 1),
                None => true,
            };
            a && b
        },
        Stmt::While { body, .. } => room > 0 && stmts_fit(body, room - 1),
        Stmt::For { init, step, body, .. } => room > 0 && inline_stmt_ok(init) && inline_stmt_ok(step)
            && stmts_fit(body, room - 1),
        Stmt::ForRange { ty, body, .. } => room > 0 && opt_type_ok(ty) && stmts_fit(body, room - 1),
        _ => true,
    }
}

/// Whether statements can be generated with at most `room` further levels of nesting.
fn stmts_fit(ss: &Vec<Stmt>, room: usize) -> (b: bool)
    ensures
        b == (stmts_ok(ss@) && stmts_depth(ss@) <= room),
    decreases ss, 0nat,
{
    let mut i: usize = 0;
    while i < ss.len()
        invariant
            i <= ss.len(),
            stmts_ok(ss@.take(i as int)),
            stmts_depth(ss@.take(i as int)) <= room,
        decreases ss.len() - i,
    {
        proof {
            assert(ss@.take(i + 1).drop_last() =~= ss@.take(i as int));
            assert(decreases_to!(ss => ss@[i as int]));
        }
        if !stmt_fits(&ss[i], room) {
            proof {
                lemma_prefix_fits(ss@, i as int + 1, room as nat);
                assert(ss@.take(i + 1).last() == ss@[i as int]);
            }
            return false;
        }
        i = i + 1;
    }
    assert(ss@.take(ss.len() as int) =~= ss@);
    true
}

/// What holds of a sequence of statements holds of each prefix.
proof fn lemma_prefix_fits(ss: Seq<Stmt>, n: int, room: nat)
    requires
        0 <= n <= ss.len(),
    ensures
        stmts_ok(ss) ==> stmts_ok(ss.take(n)),
        stmts_depth(ss.take(n)) <= stmts_depth(ss),
    decreases ss.len() - n,
{
    if n < ss.len() {
        lemma_prefix_fits(ss, n + 1, room);
        assert(ss.take(n + 1).drop_last() =~= ss.take(n));
    } else {
        assert(ss.take(n) =~= ss);
    }
}

/// The C code generator: it appends C text to its output, indenting nested blocks.
pub struct Codegen {
    output: String,
    indent: usize,
}

impl Codegen {
    /// The text emitted so far.
    pub closed spec fn out(&self) -> Seq<char> {
        self.output@
    }

    /// The current indentation level.
    pub closed spec fn level(&self) -> nat {
        self.indent as nat
    }

    pub fn new() -> (c: Codegen)
        ensures
            c.out() == Seq::<char>::empty(),
            c.level() == 0,
    {
        Codegen { output: String::new(), indent: 0 }
    }

    fn indent_str(&self) -> (s: String)
        ensures
            s@ == indent_text(self.indent as nat),
    {
        let mut s = String::new();
        let mut i: usize = 0;
        while i < self.indent
            invariant
                i <= self.indent,
                s@ == indent_text(i as nat),
            decreases self.indent - i,
        {
            s.append("    ");
            i = i + 1;
        }
        s
    }

    fn emit(&mut self, s: &str)
        ensures
            final(self).output@ == old(self).output@ + s@,
            final(self).indent == old(self).indent,
    {
        self.output.append(s);
    }

    fn emit_line(&mut self, s: &str)
        ensures
            final(self).output@ == old(self).output@ + line_text(old(self).indent as nat, s@),
            final(self).indent == old(self).indent,
    {
        let indent = self.indent_str();
        self.emit(indent.as_str());
        self.emit(s);
        self.emit("\n");
        assert(final(self).output@ =~= old(self).output@ + line_text(old(self).indent as nat, s@));
    }

    fn gen_type(&self, ty: &Type) -> (s: String)
        requires
            c_type_ok(*ty),
        ensures
            s@ == c_type(*ty),
        decreases ty,
    {
        match ty {
            Type::Int => String::from_str("int"),
            Type::Float => String::from_str("double"),
            Type::String => String::from_str("char*"),
            Type::Bool => String::from_str("bool"),
            Type::Void => String::from_str("void"),
            Type::Never => String::from_str("void"),
            Type::Nullable(inner) => self.gen_type(inner),
            Type::Array(_) => vstd::pervasive::unreached(),
            Type::Null => String::from_str("void*"),
        }
    }

    fn infer_type(&self, expr: &Expr) -> (s: String)
        ensures
            s@ == inferred_c_type(*expr),
    {
        match expr {
            Expr::Literal(Literal::Int(_)) => String::from_str("int"),
            Expr::Literal(Literal::Float(_)) => String::from_str("double"),
            Expr::Literal(Literal::String(_)) => String::from_str("char*"),
            Expr::Literal(Literal::Bool(_)) => String::from_str("bool"),
            Expr::Literal(Literal::Null) => String::from_str("void*"),
            _ => String::from_str("int"),
        }
    }

    fn binop_str(op: BinaryOp) -> (s: &'static str)
        ensures
            s@ == binop_text(op),
    {
        match op {
            BinaryOp::Add => "+",
            BinaryOp::Sub => "-",
            BinaryOp::Mul => "*",
            BinaryOp::Div => "/",
            BinaryOp::Mod => "%",
            BinaryOp::Eq => "==",
            BinaryOp::Neq => "!=",
            BinaryOp::Lt => "<",
            BinaryOp::Gt => ">",
            BinaryOp::Lte => "<=",
            BinaryOp::Gte => ">=",
            BinaryOp::And => "&&",
            BinaryOp::Or => "||",
            _ => "",
        }
    }

    fn gen_literal(&self, lit: &Literal) -> (s: String)
        ensures
            s@ == literal_c(*lit),
    {
        match lit {
            Literal::Int(n) => crate::text::int_to_string(*n),
            Literal::Float(f) => f.display.clone(),
            Literal::String(t) => {
                let mut s = String::from_str("\"");
                s.append(t.as_str());
                s.append("\"");
                s
            },
            Literal::Bool(b) => if *b {
                String::from_str("true")
            } else {
                String::from_str("false")
            },
            Literal::Null => String::from_str("NULL"),
        }
    }

    /// The format text and the joined argument texts of an interpolated string.
    fn gen_interp(&self, parts: &Vec<StringPart>) -> (r: (String, String))
        ensures
            r.0@ == interp_format(parts@),
            r.1@ == join(interp_args(parts@), ", "@),
        decreases parts, 0nat,
    {
        let mut fmt_str = String::new();
        let mut args_str = String::new();
        let mut count: usize = 0;
        let mut i: usize = 0;
        while i < parts.len()
            invariant
                i <= parts.len(),
                fmt_str@ == interp_format(parts@.take(i as int)),
                args_str@ == join(interp_args(parts@.take(i as int)), ", "@),
                count == interp_args(parts@.take(i as int)).len(),
                count <= i,
            decreases parts.len() - i,
        {
            proof {
                lemma_interp_take(parts@, i as int);
            }
            match &parts[i] {
                StringPart::Literal(s) => {
                    fmt_str.append(s.as_str());
                },
                StringPart::Expr(e) => {
                    fmt_str.append("%s");
                    proof {
                        assert(decreases_to!(parts => parts@[i as int]));
                    }
                    let a = self.gen_expr_const(e);
                    proof {
                        lemma_join_push(interp_args(parts@.take(i as int)), ", "@, a@);
                    }
                    if count > 0 {
                        args_str.append(", ");
                    }
                    args_str.append(a.as_str());
                    count = count + 1;
                },
            }
            i = i + 1;
        }
        assert(parts@.take(parts.len() as int) =~= parts@);
        (fmt_str, args_str)
    }

    /// The C texts of a list of expressions, joined by `, `.
    fn gen_args(&self, args: &Vec<Expr>) -> (s: String)
        ensures
            s@ == join(exprs_c(args@), ", "@),
        decreases args, 0nat,
    {
        let mut s = String::new();
        let mut i: usize = 0;
        while i < args.len()
            invariant
                i <= args.len(),
                s@ == join(exprs_c(args@.take(i as int)), ", "@),
            decreases args.len() - i,
        {
            proof {
                lemma_exprs_c_take(args@, i as int);
                assert(decreases_to!(args => args@[i as int]));
            }
            let a = self.gen_expr_const(&args[i]);
            proof {
                lemma_join_push(exprs_c(args@.take(i as int)), ", "@, a@);
            }
            if i > 0 {
                s.append(", ");
            }
            s.append(a.as_str());
            i = i + 1;
        }
        assert(args@.take(args.len() as int) =~= args@);
        s
    }

    fn gen_expr(&mut self, expr: &Expr) -> (s: String)
        ensures
            s@ == expr_c(*expr),
            *final(self) == *old(self),
    {
        self.gen_expr_const(expr)
    }

    fn gen_expr_const(&self, expr: &Expr) -> (s: String)
        ensures
            s@ == expr_c(*expr),
        decreases expr, 1nat,
    {
        match expr {
            Expr::Literal(lit) => {
                let s = self.gen_literal(lit);
                assert(expr_c(*expr) == literal_c(*lit));
                s
            },
            Expr::StringInterp(parts) => {
                let (fmt_str, _args) = self.gen_interp(parts);
                let mut s = String::from_str("\"");
                s.append(fmt_str.as_str());
                s.append("\"");
                s
            },
            Expr::Ident(name) => name.clone(),
            Expr::BinaryOp { op, left, right } => {
                let l = self.gen_expr_const(left);
                let r = self.gen_expr_const(right);
                match op {
                    BinaryOp::NullCoalesce => {
                        let mut s = String::from_str("(");
                        s.append(l.as_str());
                        s.append(" != NULL ? ");
                        s.append(l.as_str());
                        s.append(" : ");
                        s.append(r.as_str());
                        s.append(")");
                        s
                    },
                    BinaryOp::Pow => {
                        let mut s = String::from_str("pow(");
                        s.append(l.as_str());
                        s.append(", ");
                        s.append(r.as_str());
                        s.append(")");
                        s
                    },
                    BinaryOp::Range | BinaryOp::RangeInclusive => r,
                    _ => {
                        let mut s = String::from_str("(");
                        s.append(l.as_str());
                        s.append(" ");
                        s.append(Self::binop_str(*op));
                        s.append(" ");
                        s.append(r.as_str());
                        s.append(")");
                        s
                    },
                }
            },
            Expr::UnaryOp { op, expr: inner } => {
                let x = self.gen_expr_const(inner);
                match op {
                    UnaryOp::Not => {
                        let mut s = String::from_str("(!");
                        s.append(x.as_str());
                        s.append(")");
                        s
                    },
                    UnaryOp::Neg => {
                        let mut s = String::from_str("(-");
                        s.append(x.as_str());
                        s.append(")");
                        s
                    },
                    UnaryOp::PostIncrement => {
                        let mut s = x;
                        s.append("++");
                        s
                    },
                    UnaryOp::PostDecrement => {
                        let mut s = x;
                        s.append("--");
                        s
                    },
                }
            },
            Expr::Call { name, args } => {
                let args_str = self.gen_args(args);
                if crate::text::string_is(name, "println") {
                    if args.len() == 0 {
                        String::from_str("printf(\"\\n\")")
                    } else {
                        let arg = &args[0];
                        proof {
                            assert(decreases_to!(args => args@[0]));
                        }
                        let s = match arg {
                            Expr::StringInterp(parts) => {
                                let (fmt_str, pargs) = self.gen_interp(parts);
                                if pargs.as_str().unicode_len() == 0 {
                                    let mut s = String::from_str("printf(\"");
                                    s.append(fmt_str.as_str());
                                    s.append("\\n\")");
                                    s
                                } else {
                                    let mut s = String::from_str("printf(\"");
                                    s.append(fmt_str.as_str());
                                    s.append("\\n\", ");
                                    s.append(pargs.as_str());
                                    s.append(")");
                                    s
                                }
                            },
                            Expr::Literal(Literal::String(_)) => {
                                let a = self.gen_expr_const(arg);
                                let mut s = String::from_str("printf(\"%s\\n\", ");
                                s.append(a.as_str());
                                s.append(")");
                                s
                            },
                            _ => {
                                let a = self.gen_expr_const(arg);
                                let mut s = String::from_str("printf(\"%d\\n\", ");
                                s.append(a.as_str());
                                s.append(")");
                                s
                            },
                        };
                        assert(s@ == println_c(args@[0]));
                        s
                    }
                } else if crate::text::string_is(name, "printf") {
                    let mut s = String::from_str("printf(");
                    s.append(args_str.as_str());
                    s.append(")");
                    s
                } else if crate::text::string_is(name, "sprintf") {
                    let mut s = String::from_str("sprintf(");
                    s.append(args_str.as_str());
                    s.append(")");
                    s
                } else {
                    let mut s = name.clone();
                    s.append("(");
                    s.append(args_str.as_str());
                    s.append(")");
                    s
                }
            },
            Expr::FieldAccess { object, field } => {
                let mut s = self.gen_expr_const(object);
                s.append(".");
                s.append(field.as_str());
                s
            },
            Expr::MethodCall { object, method, args } => {
                let obj = self.gen_expr_const(object);
                let args_str = self.gen_args(args);
                let mut s = obj.clone();
                s.append("_");
                s.append(method.as_str());
                s.append("(");
                s.append(obj.as_str());
                s.append(", ");
                s.append(args_str.as_str());
                s.append(")");
                s
            },
            Expr::Index { array, index } => {
                let mut s = self.gen_expr_const(array);
                let idx = self.gen_expr_const(index);
                s.append("[");
                s.append(idx.as_str());
                s.append("]");
                s
            },
        }
    }

    fn gen_decl_type(&self, ty: &Option<Type>, value: &Expr) -> (s: String)
        requires
            decl_ok(*ty),
        ensures
            s@ == decl_type_c(*ty, *value),
    {
        match ty {
            Some(t) => self.gen_type(t),
            None => self.infer_type(value),
        }
    }

    fn gen_stmt_inline(&mut self, stmt: &Stmt) -> (s: String)
        requires
            inline_ok(*stmt),
        ensures
            s@ == inline_stmt_c(*stmt),
            *final(self) == *old(self),
    {
        match stmt {
            Stmt::VarDecl { ty, name, value, is_const } => {
                let ty_str = self.gen_decl_type(ty, value);
                let mut s = if *is_const {
                    String::from_str("const ")
                } else {
                    String::new()
                };
                let val_str = self.gen_expr(value);
                s.append(ty_str.as_str());
                s.append(" ");
                s.append(name.as_str());
                s.append(" = ");
                s.append(val_str.as_str());
                s
            },
            Stmt::Expr(e) => self.gen_expr(e),
            Stmt::Assign { name, value } => {
                let mut s = name.clone();
                s.append(" = ");
                let v = self.gen_expr(value);
                s.append(v.as_str());
                s
            },
            _ => String::new(),
        }
    }

    fn extract_range(&self, expr: &Expr) -> (r: (String, String, bool))
        ensures
            (r.0@, r.1@, r.2) == range_parts(*expr),
    {
        match expr {
            Expr::BinaryOp { op, left, right } => {
                let start = self.gen_expr_const(left);
                let end = self.gen_expr_const(right);
                let inclusive = match op {
                    BinaryOp::RangeInclusive => true,
                    _ => false,
                };
                (start, end, inclusive)
            },
            _ => {
                proof {
                    reveal_strlit("0");
                }
                (String::from_str("0"), String::from_str("0"), false)
            },
        }
    }

    /// Emits a block of statements one level deeper than the current indentation.
    fn gen_block(&mut self, stmts: &Vec<Stmt>)
        requires
            stmts_ok(stmts@),
            old(self).indent + stmts_depth(stmts@) <= usize::MAX,
        ensures
            final(self).output@ == old(self).output@ + stmts_c(old(self).indent as nat, stmts@),
            final(self).indent == old(self).indent,
        decreases stmts, 0nat,
    {
        let mut i: usize = 0;
        while i < stmts.len()
            invariant
                i <= stmts.len(),
                stmts_ok(stmts@),
                self.indent == old(self).indent,
                old(self).indent + stmts_depth(stmts@) <= usize::MAX,
                self.output@ == old(self).output@ + stmts_c(self.indent as nat, stmts@.take(i as int)),
            decreases stmts.len() - i,
        {
            proof {
                lemma_stmts_c_take(self.indent as nat, stmts@, i as int);
                lemma_stmts_facts(stmts@, i as int);
                assert(decreases_to!(stmts => stmts@[i as int]));
            }
            self.gen_stmt(&stmts[i]);
            i = i + 1;
        }
        assert(stmts@.take(stmts.len() as int) =~= stmts@);
    }

    fn gen_stmt(&mut self, stmt: &Stmt)
        requires
            stmt_ok(*stmt),
            old(self).indent + stmt_depth(*stmt) <= usize::MAX,
        ensures
            final(self).output@ == old(self).output@ + stmt_c(old(self).indent as nat, *stmt),
            final(self).indent == old(self).indent,
        decreases stmt, 1nat,
    {
        let ghost ind = self.indent as nat;
        match stmt {
            Stmt::VarDecl { ty, name, value, is_const } => {
                let ty_str = self.gen_decl_type(ty, value);
                let mut s = if *is_const {
                    String::from_str("const ")
                } else {
                    String::new()
                };
                let val_str = self.gen_expr(value);
                s.append(ty_str.as_str());
                s.append(" ");
                s.append(name.as_str());
                s.append(" = ");
                s.append(val_str.as_str());
                s.append(";");
                self.emit_line(s.as_str());
            },
            Stmt::Assign { name, value } => {
                let val_str = self.gen_expr(value);
                let mut s = name.clone();
                s.append(" = ");
                s.append(val_str.as_str());
                s.append(";");
                self.emit_line(s.as_str());
            },
            Stmt::Return(expr) => {
                match expr {
                    Some(e) => {
                        let val_str = self.gen_expr(e);
                        let mut s = String::from_str("return ");
                        s.append(val_str.as_str());
                        s.append(";");
                        self.emit_line(s.as_str());
                    },
                    None => self.emit_line("return;"),
                }
            },
            Stmt::Expr(expr) => {
                let val_str = self.gen_expr(expr);
                let mut s = val_str;
                s.append(";");
                self.emit_line(s.as_str());
            },
            Stmt::If { .. } => self.gen_if(stmt),
            Stmt::While { .. } => self.gen_while(stmt),
            Stmt::For { .. } => self.gen_for(stmt),
            Stmt::ForRange { .. } => self.gen_for_range(stmt),
        }
    }


    fn gen_if(&mut self, stmt: &Stmt)
        requires
            stmt_ok(*stmt),
            old(self).indent + stmt_depth(*stmt) <= usize::MAX,
            stmt is If,
        ensures
            final(self).output@ == old(self).output@ + stmt_c(old(self).indent as nat, *stmt),
            final(self).indent == old(self).indent,
        decreases stmt, 0nat,
    {
        let ghost ind = self.indent as nat;
        match stmt {
            Stmt::If { condition, then_block, else_block } => {
                let cond_str = self.gen_expr(condition);
                let mut s = String::from_str("if (");
                s.append(cond_str.as_str());
                s.append(") {");
                self.emit_line(s.as_str());
                let ghost after_head = self.output@;
                self.indent = self.indent + 1;
                self.gen_block(then_block);
                self.indent = self.indent - 1;
                match else_block {
                    Some(else_stmts) => {
                        self.emit_line("} else {");
                        self.indent = self.indent + 1;
                        self.gen_block(else_stmts);
                        self.indent = self.indent - 1;
                        self.emit_line("}");
                    },
                    None => self.emit_line("}"),
                }
                assert(self.output@ =~= old(self).output@ + stmt_c(ind, *stmt));
            },
            _ => vstd::pervasive::unreached(),
        }
    }

    fn gen_while(&mut self, stmt: &Stmt)
        requires
            stmt_ok(*stmt),
            old(self).indent + stmt_depth(*stmt) <= usize::MAX,
            stmt is While,
        ensures
            final(self).output@ == old(self).output@ + stmt_c(old(self).indent as nat, *stmt),
            final(self).indent == old(self).indent,
        decreases stmt, 0nat,
    {
        let ghost ind = self.indent as nat;
        match stmt {
            Stmt::While { condition, body } => {
                let cond_str = self.gen_expr(condition);
                let mut s = String::from_str("while (");
                s.append(cond_str.as_str());
                s.append(") {");
                self.emit_line(s.as_str());
                self.indent = self.indent + 1;
                self.gen_block(body);
                self.indent = self.indent - 1;
                self.emit_line("}");
                assert(self.output@ =~= old(self).output@ + stmt_c(ind, *stmt));
            },
            _ => vstd::pervasive::unreached(),
        }
    }

    fn gen_for(&mut self, stmt: &Stmt)
        requires
            stmt_ok(*stmt),
            old(self).indent + stmt_depth(*stmt) <= usize::MAX,
            stmt is For,
        ensures
            final(self).output@ == old(self).output@ + stmt_c(old(self).indent as nat, *stmt),
            final(self).indent == old(self).indent,
        decreases stmt, 0nat,
    {
        let ghost ind = self.indent as nat;
        match stmt {
            Stmt::For { init, condition, step, body } => {
                let cond_str = self.gen_expr(condition);
                let step_str = self.gen_stmt_inline(step);
                let init_str = self.gen_stmt_inline(init);
                let mut s = String::from_str("for (");
                s.append(init_str.as_str());
                s.append(" ");
                s.append(cond_str.as_str());
                s.append("; ");
                s.append(step_str.as_str());
                s.append(") {");
                self.emit_line(s.as_str());
                self.indent = self.indent + 1;
                self.gen_block(body);
                self.indent = self.indent - 1;
                self.emit_line("}");
                assert(self.output@ =~= old(self).output@ + stmt_c(ind, *stmt));
            },
            _ => vstd::pervasive::unreached(),
        }
    }

    fn gen_for_range(&mut self, stmt: &Stmt)
        requires
            stmt_ok(*stmt),
            old(self).indent + stmt_depth(*stmt) <= usize::MAX,
            stmt is ForRange,
        ensures
            final(self).output@ == old(self).output@ + stmt_c(old(self).indent as nat, *stmt),
            final(self).indent == old(self).indent,
        decreases stmt, 0nat,
    {
        let ghost ind = self.indent as nat;
        match stmt {
            Stmt::ForRange { ty, name, range, body } => {
                let ty_str = match ty {
                    Some(t) => self.gen_type(t),
                    None => String::from_str("int"),
                };
                let (start, end, inclusive) = self.extract_range(range);
                let rel = if inclusive {
                    "<="
                } else {
                    "<"
                };
                let mut s = String::from_str("for (");
                s.append(ty_str.as_str());
                s.append(" ");
                s.append(name.as_str());
                s.append(" = ");
                s.append(start.as_str());
                s.append("; ");
                s.append(name.as_str());
                s.append(" ");
                s.append(rel);
                s.append(" ");
                s.append(end.as_str());
                s.append("; ");
                s.append(name.as_str());
                s.append("++) {");
                self.emit_line(s.as_str());
                self.indent = self.indent + 1;
                self.gen_block(body);
                self.indent = self.indent - 1;
                self.emit_line("}");
                assert(self.output@ =~= old(self).output@ + stmt_c(ind, *stmt));
            },
            _ => vstd::pervasive::unreached(),
        }
    }

    fn gen_params(&self, params: &Vec<Param>) -> (s: String)
        requires
            forall|i: int| 0 <= i < params@.len() ==> c_type_ok(#[trigger] params@[i].ty),
        ensures
            s@ == join(params_c(params@), ", "@),
    {
        let mut s = String::new();
        let mut i: usize = 0;
        while i < params.len()
            invariant
                i <= params.len(),
                forall|k: int| 0 <= k < params@.len() ==> c_type_ok(#[trigger] params@[k].ty),
                s@ == join(params_c(params@.take(i as int)), ", "@),
                params_c(params@.take(i as int)).len() == i,
            decreases params.len() - i,
        {
            let p = &params[i];
            let ty = self.gen_type(&p.ty);
            let mut one = ty;
            if p.by_ref || p.by_const_ref {
                one.append("* ");
            } else {
                one.append(" ");
            }
            one.append(p.name.as_str());
            proof {
                assert(params@.take(i + 1).drop_last() =~= params@.take(i as int));
                lemma_join_push(params_c(params@.take(i as int)), ", "@, one@);
            }
            if i > 0 {
                s.append(", ");
            }
            s.append(one.as_str());
            i = i + 1;
        }
        assert(params@.take(params.len() as int) =~= params@);
        s
    }

    #[verifier::rlimit(80)]
    #[verifier::spinoff_prover]
    fn gen_function(&mut self, return_ty: &Type, name: &String, params: &Vec<Param>, body: &Vec<Stmt>)
        requires
            function_ok(old(self).indent as nat, *return_ty, name@, params@, body@),
        ensures
            final(self).output@ == old(self).output@ + function_c(
                old(self).indent as nat,
                *return_ty,
                name@,
                params@,
                body@,
            ),
            final(self).indent == old(self).indent,
    {
        let ghost ind = self.indent as nat;
        let is_main = crate::text::string_is(name, "main");
        let ret = if is_main {
            String::from_str("int")
        } else {
            self.gen_type(return_ty)
        };
        let params_str = if params.len() == 0 {
            String::from_str("void")
        } else {
            self.gen_params(params)
        };
        let noreturn = match return_ty {
            Type::Never => "__attribute__((noreturn)) ",
            _ => "",
        };
        proof {
            reveal_strlit("");
        }
        let mut head = String::from_str(noreturn);
        head.append(ret.as_str());
        head.append(" ");
        head.append(name.as_str());
        head.append("(");
        head.append(params_str.as_str());
        head.append(") {");
        self.emit_line(head.as_str());
        let ghost after_head = self.output@;
        self.indent = self.indent + 1;
        self.gen_block(body);
        if is_main {
            self.emit_line("return 0;");
        }
        let ghost after_body = self.output@;
        self.indent = self.indent - 1;
        self.emit_line("}");
        self.emit_line("");
        proof {
            reveal_strlit("");
            assert(after_body =~= old(self).output@ + line_text(ind, head@) + stmts_c(ind + 1, body@) + (
            if is_main { line_text(ind + 1, "return 0;"@) } else { Seq::empty() }));
        }
        assert(self.output@ =~= old(self).output@ + function_c(ind, *return_ty, name@, params@, body@));
    }

    fn gen_top_level(&mut self, item: &TopLevel)
        requires
            top_level_ok(old(self).indent as nat, *item),
        ensures
            final(self).output@ == old(self).output@ + top_level_c(old(self).indent as nat, *item),
            final(self).indent == old(self).indent,
    {
        match item {
            TopLevel::Function { return_ty, name, params, body } => {
                self.gen_function(return_ty, name, params, body);
            },
            _ => vstd::pervasive::unreached(),
        }
    }

    /// Whether `generate` can generate `program` at the current indentation: every
    /// item is a function, and no type in it is an array type.
    pub fn supports(&self, program: &Program) -> (b: bool)
        ensures
            b == program_ok(self.level(), *program),
    {
        let mut i: usize = 0;
        while i < program.items.len()
            invariant
                i <= program.items.len(),
                forall|j: int| 0 <= j < i ==> top_level_ok(self.indent as nat, #[trigger] program.items@[j]),
            decreases program.items.len() - i,
        {
            let ok = match &program.items[i] {
                TopLevel::Function { return_ty, name, params, body } => {
                    let ret_ok = crate::text::string_is(name, "main") || type_ok(return_ty);
                    let mut params_ok = true;
                    let mut k: usize = 0;
                    while k < params.len()
                        invariant
                            k <= params.len(),
                            params_ok == forall|j: int| 0 <= j < k ==> c_type_ok(#[trigger] params@[j].ty),
                        decreases params.len() - k,
                    {
                        if !type_ok(&params[k].ty) {
                            params_ok = false;
                        }
                        k = k + 1;
                    }
                    let fits = self.indent < usize::MAX && stmts_fit(body, usize::MAX - self.indent - 1);
                    ret_ok && params_ok && fits
                },
                _ => false,
            };
            if !ok {
                return false;
            }
            i = i + 1;
        }
        true
    }

    /// Generates the C text of a program: the standard headers, then each item in turn.
    /// The text is appended to what was emitted before; the whole output is returned.
    pub fn generate(&mut self, program: &Program) -> (s: String)
        requires
            program_ok(old(self).level(), *program),
        ensures
            final(self).out() == old(self).out() + program_c(old(self).level(), *program),
            final(self).level() == old(self).level(),
            s@ == final(self).out(),
    {
        self.emit_line("#include <stdio.h>");
        self.emit_line("#include <stdlib.h>");
        self.emit_line("#include <string.h>");
        self.emit_line("#include <stdbool.h>");
        self.emit_line("");
        proof {
            reveal_strlit("");
        }
        assert(self.output@ =~= old(self).output@ + headers_c(self.indent as nat));
        let ghost start = self.output@;
        let mut i: usize = 0;
        while i < program.items.len()
            invariant
                i <= program.items.len(),
                program_ok(self.indent as nat, *program),
                self.indent == old(self).indent,
                self.output@ == start + items_c(self.indent as nat, program.items@.take(i as int)),
                start == old(self).output@ + headers_c(self.indent as nat),
            decreases program.items.len() - i,
        {
            proof {
                assert(program.items@.take(i + 1).drop_last() =~= program.items@.take(i as int));
            }
            self.gen_top_level(&program.items[i]);
            i = i + 1;
        }
        assert(program.items@.take(program.items.len() as int) =~= program.items@);
        assert(self.output@ =~= old(self).output@ + program_c(old(self).indent as nat, *program));
        self.output.clone()
    }
}

} // verus!
