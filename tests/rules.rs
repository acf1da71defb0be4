use oxc_lint_server::diagnostic::RawFinding;
use oxc_lint_server::prefer_reflect_apply::{
    Argument, AstKind, CallExpression, Expression, PreferReflectApply, Span,
};

fn id(name: &str) -> Expression {
    Expression::Identifier(name.to_string())
}

fn member(object: Expression, property: &str) -> Expression {
    Expression::MemberExpression { object: Box::new(object), property: Some(property.to_string()) }
}

fn arg(e: Expression) -> Argument {
    Argument::Expression(e)
}

fn call(callee: Expression, arguments: Vec<Argument>) -> AstKind {
    AstKind::CallExpression(CallExpression { callee, arguments, optional: false, span: Span { start: 0, end: 10 } })
}

fn function_prototype_apply_call() -> Expression {
    member(member(member(id("Function"), "prototype"), "apply"), "call")
}

fn run(node: &AstKind) -> Option<RawFinding> {
    PreferReflectApply.run(node)
}

#[test]
fn test() {
    let pass = vec![
        // foo.apply();
        call(member(id("foo"), "apply"), vec![]),
        // foo.apply(null);
        call(member(id("foo"), "apply"), vec![arg(Expression::NullLiteral)]),
        // foo.apply(this);
        call(member(id("foo"), "apply"), vec![arg(Expression::This)]),
        // foo.apply(null, 42);
        call(member(id("foo"), "apply"), vec![arg(Expression::NullLiteral), arg(Expression::OtherLiteral)]),
        // foo.apply(this, 42);
        call(member(id("foo"), "apply"), vec![arg(Expression::This), arg(Expression::OtherLiteral)]),
        // foo.apply(bar, arguments);
        call(member(id("foo"), "apply"), vec![arg(id("bar")), arg(id("arguments"))]),
        // [].apply(null, [42]);
        call(
            member(Expression::ArrayExpression, "apply"),
            vec![arg(Expression::NullLiteral), arg(Expression::ArrayExpression)],
        ),
        // foo.apply(bar);
        call(member(id("foo"), "apply"), vec![arg(id("bar"))]),
        // foo.apply(bar, []);
        call(member(id("foo"), "apply"), vec![arg(id("bar")), arg(Expression::ArrayExpression)]),
        // foo.apply;
        AstKind::Other,
        // apply;
        AstKind::Other,
        // Reflect.apply(foo, null);
        call(member(id("Reflect"), "apply"), vec![arg(id("foo")), arg(Expression::NullLiteral)]),
        // Reflect.apply(foo, null, [bar]);
        call(
            member(id("Reflect"), "apply"),
            vec![arg(id("foo")), arg(Expression::NullLiteral), arg(Expression::ArrayExpression)],
        ),
        // const apply = "apply"; foo[apply](null, [42]);
        call(
            Expression::MemberExpression { object: Box::new(id("foo")), property: None },
            vec![arg(Expression::NullLiteral), arg(Expression::ArrayExpression)],
        ),
    ];
    let fail = vec![
        // foo.apply(null, [42]);
        call(member(id("foo"), "apply"), vec![arg(Expression::NullLiteral), arg(Expression::ArrayExpression)]),
        // foo.bar.apply(null, [42]);
        call(
            member(member(id("foo"), "bar"), "apply"),
            vec![arg(Expression::NullLiteral), arg(Expression::ArrayExpression)],
        ),
        // Function.prototype.apply.call(foo, null, [42]);
        call(
            function_prototype_apply_call(),
            vec![arg(id("foo")), arg(Expression::NullLiteral), arg(Expression::ArrayExpression)],
        ),
        // Function.prototype.apply.call(foo.bar, null, [42]);
        call(
            function_prototype_apply_call(),
            vec![arg(member(id("foo"), "bar")), arg(Expression::NullLiteral), arg(Expression::ArrayExpression)],
        ),
        // foo.apply(null, arguments);
        call(member(id("foo"), "apply"), vec![arg(Expression::NullLiteral), arg(id("arguments"))]),
        // Function.prototype.apply.call(foo, null, arguments);
        call(
            function_prototype_apply_call(),
            vec![arg(id("foo")), arg(Expression::NullLiteral), arg(id("arguments"))],
        ),
        // foo.apply(this, [42]);
        call(member(id("foo"), "apply"), vec![arg(Expression::This), arg(Expression::ArrayExpression)]),
        // Function.prototype.apply.call(foo, this, [42]);
        call(
            function_prototype_apply_call(),
            vec![arg(id("foo")), arg(Expression::This), arg(Expression::ArrayExpression)],
        ),
        // foo.apply(this, arguments);
        call(member(id("foo"), "apply"), vec![arg(Expression::This), arg(id("arguments"))]),
        // Function.prototype.apply.call(foo, this, arguments);
        call(
            function_prototype_apply_call(),
            vec![arg(id("foo")), arg(Expression::This), arg(id("arguments"))],
        ),
        // foo["apply"](null, [42]);
        call(member(id("foo"), "apply"), vec![arg(Expression::NullLiteral), arg(Expression::ArrayExpression)]),
    ];
    for node in &pass {
        assert!(run(node).is_none(), "expected no finding for {:?}", node);
    }
    for node in &fail {
        let f = run(node).expect("expected a finding");
        assert_eq!(
            f.message,
            "eslint-plugin-unicorn(prefer-reflect-apply): Prefer Reflect.apply() over Function#apply()"
        );
        assert_eq!(f.help.as_deref(), Some("Reflect.apply() is less verbose and easier to understand."));
        assert_eq!(f.labels.len(), 1);
        assert_eq!(f.labels[0].offset, 0);
        assert_eq!(f.labels[0].len, 10);
    }
}

#[test]
fn optional_call_is_not_reported() {
    let node = AstKind::CallExpression(CallExpression {
        callee: member(id("foo"), "apply"),
        arguments: vec![arg(Expression::NullLiteral), arg(Expression::ArrayExpression)],
        optional: true,
        span: Span { start: 0, end: 5 },
    });
    assert!(run(&node).is_none());
}
