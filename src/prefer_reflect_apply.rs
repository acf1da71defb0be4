use vstd::prelude::*;
use vstd::string::*;
use crate::diagnostic::{LabeledSpan, RawFinding, Severity};

verus! {

/// A span of source text, from `start` to `end`.
#[derive(Clone, Copy, Debug, PartialEq, Eq, Structural)]
pub struct Span {
    pub start: u32,
    pub end: u32,
}

/// The parts of an expression that the rule looks at.
#[derive(Debug)]
pub enum Expression {
    This,
    NullLiteral,
    /// A literal other than `null`: a boolean, number, bigint, string or regular expression.
    OtherLiteral,
    ArrayExpression,
    ObjectExpression,
    Identifier(String),
    /// A member access; `property` is its static property name, where it has one
    /// (`a.b` and `a["b"]` have `b`, `a[b]` has none).
    MemberExpression { object: Box<Expression>, property: Option<String> },
    /// Any other expression.
    Other,
}

/// An argument of a call.
#[derive(Debug)]
pub enum Argument {
    Expression(Expression),
    Spread,
}

/// A call: its callee, its arguments, whether it is an optional call (`a?.()`), and where
/// it stands.
#[derive(Debug)]
pub struct CallExpression {
    pub callee: Expression,
    pub arguments: Vec<Argument>,
    pub optional: bool,
    pub span: Span,
}

/// The nodes the rule is run on.
#[derive(Debug)]
pub enum AstKind {
    CallExpression(CallExpression),
    Other,
}

/// Prefers `Reflect.apply()` over `Function#apply()`.
#[derive(Clone, Copy, Debug, Default)]
pub struct PreferReflectApply;

pub open spec fn is_this_or_null(e: Expression) -> bool {
    e is This || e is NullLiteral
}

/// Whether two arguments are those of an `apply` call: `this` or `null`, then an array
/// or `arguments`.
pub open spec fn apply_signature(a1: Argument, a2: Argument) -> bool {
    match (a1, a2) {
        (Argument::Expression(e1), Argument::Expression(e2)) => is_this_or_null(e1) && (
        e2 is ArrayExpression || (e2 matches Expression::Identifier(n) && n@ == "arguments"@)),
        _ => false,
    }
}

pub open spec fn has_property(e: Expression, name: Seq<char>) -> bool {
    e matches Expression::MemberExpression { property: Some(p), .. } && p@ == name
}

pub open spec fn object_of(e: Expression) -> Expression {
    match e {
        Expression::MemberExpression { object, .. } => *object,
        _ => Expression::Other,
    }
}

/// Whether an object is one the rule leaves alone: an array, an object or a literal.
pub open spec fn skipped_object(o: Expression) -> bool {
    o is ArrayExpression || o is ObjectExpression || o is NullLiteral || o is OtherLiteral
}

/// Whether a call is reported: `f.apply(thisArg, args)` or
/// `Function.prototype.apply.call(f, thisArg, args)`, not optional, on an object that is
/// no array, object or literal.
pub open spec fn reported_call(c: CallExpression) -> bool {
    let args = c.arguments@;
    &&& c.callee is MemberExpression
    &&& !c.optional
    &&& !skipped_object(object_of(c.callee))
    &&& {
        ||| (has_property(c.callee, "apply"@) && args.len() == 2 && apply_signature(
            args[0],
            args[1],
        ))
        ||| (has_property(c.callee, "call"@) && has_property(object_of(c.callee), "apply"@)
            && has_property(object_of(object_of(c.callee)), "prototype"@) && (object_of(
            object_of(object_of(c.callee)),
        ) matches Expression::Identifier(n) && n@ == "Function"@) && args.len() == 3
            && apply_signature(args[1], args[2]))
    }
}

/// Whether a node is a reported call.
pub open spec fn reported_node(node: AstKind) -> bool {
    node matches AstKind::CallExpression(c) && reported_call(c)
}

fn str_eq(a: &String, b: &str) -> (r: bool)
    ensures
        r == (a@ == b@),
{
    let b = String::from_str(b);
    *a == b
}

fn is_apply_signature(argument_1: &Argument, argument_2: &Argument) -> (r: bool)
    ensures
        r == apply_signature(*argument_1, *argument_2),
{
    let arg_expr_1 = match argument_1 {
        Argument::Expression(e) => e,
        _ => return false,
    };
    let arg_expr_2 = match argument_2 {
        Argument::Expression(e) => e,
        _ => return false,
    };
    if matches!(arg_expr_1, Expression::This) || matches!(arg_expr_1, Expression::NullLiteral) {
        if matches!(arg_expr_2, Expression::ArrayExpression) {
            return true;
        }
        if let Expression::Identifier(iden) = arg_expr_2 {
            return str_eq(iden, "arguments");
        }
    }
    false
}

fn is_static_property_name_equal(expr: &Expression, value: &str) -> (r: bool)
    ensures
        r == has_property(*expr, value@),
{
    match expr {
        Expression::MemberExpression { property: Some(p), .. } => str_eq(p, value),
        _ => false,
    }
}

/// The finding of a reported call, labeled with the call's span.
pub open spec fn is_reflect_apply_finding(f: RawFinding, span: Span) -> bool {
    &&& f.message@
        == "eslint-plugin-unicorn(prefer-reflect-apply): Prefer Reflect.apply() over Function#apply()"@
    &&& f.help matches Some(h) && h@ == "Reflect.apply() is less verbose and easier to understand."@
    &&& f.severity == Severity::Warning
    &&& f.labels@.len() == 1
    &&& f.labels@[0].offset == span.start
    &&& f.labels@[0].len == span.end - span.start
    &&& f.labels@[0].label.is_none()
    &&& f.fix.is_none()
}

fn reflect_apply_finding(span: Span) -> (r: RawFinding)
    requires
        span.start <= span.end,
    ensures
        is_reflect_apply_finding(r, span),
{
    let mut labels: Vec<LabeledSpan> = Vec::new();
    labels.push(
        LabeledSpan {
            offset: span.start as usize,
            len: (span.end - span.start) as usize,
            label: None,
        },
    );
    RawFinding {
        message: String::from_str(
            "eslint-plugin-unicorn(prefer-reflect-apply): Prefer Reflect.apply() over Function#apply()",
        ),
        help: Some(String::from_str("Reflect.apply() is less verbose and easier to understand.")),
        severity: Severity::Warning,
        labels,
        fix: None,
    }
}

impl PreferReflectApply {
    /// Runs the rule on a node: a reported call gives one finding over its span, any
    /// other node none.
    pub fn run(&self, node: &AstKind) -> (r: Option<RawFinding>)
        requires
            node matches AstKind::CallExpression(c) ==> c.span.start <= c.span.end,
        ensures
            reported_node(*node) ==> (r matches Some(f) && is_reflect_apply_finding(
                f,
                node->CallExpression_0.span,
            )),
            !reported_node(*node) ==> r.is_none(),
    {
        let call_expr = match node {
            AstKind::CallExpression(c) => c,
            _ => return None,
        };
        let object = match &call_expr.callee {
            Expression::MemberExpression { object, .. } => object,
            _ => return None,
        };
        if call_expr.optional || matches!(**object, Expression::ArrayExpression)
            || matches!(**object, Expression::ObjectExpression) || matches!(
            **object,
            Expression::NullLiteral
        ) || matches!(**object, Expression::OtherLiteral) {
            return None;
        }
        let n = call_expr.arguments.len();
        if is_static_property_name_equal(&call_expr.callee, "apply") && n == 2
            && is_apply_signature(&call_expr.arguments[0], &call_expr.arguments[1]) {
            return Some(reflect_apply_finding(call_expr.span));
        }
        if is_static_property_name_equal(&call_expr.callee, "call") {
            if let Expression::MemberExpression { object: obj_obj, .. } = &**object {
                if is_static_property_name_equal(object, "apply") {
                    if is_static_property_name_equal(obj_obj, "prototype") {
                        if let Expression::MemberExpression { object: base, .. } = &**obj_obj {
                            if let Expression::Identifier(iden) = &**base {
                                if str_eq(iden, "Function") && n == 3 && is_apply_signature(
                                    &call_expr.arguments[1],
                                    &call_expr.arguments[2],
                                ) {
                                    return Some(reflect_apply_finding(call_expr.span));
                                }
                            }
                        }
                    }
                }
            }
        }
        None
    }
}

} // verus!
