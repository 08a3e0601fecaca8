use praxis::ast::{
    Argument, ArrayElement, ArrowBody, AssignmentOperator, AssignmentTarget, Binding, BindingElement,
    BindingPattern, Class, ClassElement, Declaration, Expr, ExprKind, ForInOfKind, ForInOfTarget,
    ForInit, FormalParameters, Function, MethodKind, Pattern, PatternElement, PropertyDefinition,
    PropertyKey, RegExpLiteral, Stmt, StmtKind,
};
use praxis::lexer::value::NumericValue;
use praxis::lexer::{ReservedWord, TokenKind};
use praxis::parser::{parse_expression, parse_module, parse_script, ParseError, ParseErrorKind};
use praxis::span::Span;

fn numeric(value: &NumericValue) -> f64 {
    if value.radix == 10 {
        let digits: String = value.digits.iter().map(|d| char::from(b'0' + d)).collect();
        let digits = if digits.is_empty() { "0".to_string() } else { digits };
        format!("{}e{}", digits, value.exponent).parse::<f64>().unwrap_or(f64::NAN)
    } else {
        let mut total = 0.0f64;
        for d in &value.digits {
            total = total * value.radix as f64 + *d as f64;
        }
        total
    }
}

fn number(kind: &ExprKind) -> f64 {
    match kind {
        ExprKind::Number(value) => numeric(value),
        other => panic!("not a number: {other:?}"),
    }
}

fn regexp(body: &str, flags: &str) -> ExprKind {
    ExprKind::RegExp(Box::new(RegExpLiteral { body: body.to_string(), flags: flags.to_string() }))
}

fn parse(source: &str) -> Expr {
    parse_expression(source).unwrap_or_else(|err| panic!("{source:?} should parse, got {:?}", err.kind))
}

fn error(source: &str) -> ParseError {
    match parse_expression(source) {
        Err(err) => err,
        Ok(expr) => panic!("{source:?} should not parse, got {expr:?}"),
    }
}

fn shape(source: &str) -> String {
    render(&parse(source))
}

fn statements(source: &str) -> Vec<String> {
    let script = parse_script(source)
        .unwrap_or_else(|err| panic!("{source:?} should parse, got {:?}", err.kind));
    script.body.iter().map(render_statement).collect()
}

fn script_error(source: &str) -> ParseError {
    match parse_script(source) {
        Err(err) => err,
        Ok(script) => panic!("{source:?} should not parse, got {script:?}"),
    }
}

fn utf16(units: &[u16]) -> String {
    String::from_utf16_lossy(units)
}

fn render_number(value: &NumericValue) -> String {
    format!("{}", numeric(value))
}

fn render_key(key: &PropertyKey) -> String {
    match key {
        PropertyKey::Identifier(name) => name.clone(),
        PropertyKey::String(units) => format!("s{:?}", utf16(units)),
        PropertyKey::Number(value) => format!("n{}", render_number(value)),
        PropertyKey::BigInt(text) => text.clone(),
        PropertyKey::Computed(expr) => format!("[{}]", render(expr)),
        PropertyKey::Private(name) => format!("#{name}"),
    }
}

fn list<T>(items: &[T], each: impl Fn(&T) -> String) -> String {
    items.iter().map(each).collect::<Vec<_>>().join(" ")
}

fn render_arguments(arguments: &[Argument]) -> String {
    format!(
        "[{}]",
        list(arguments, |argument| match argument {
            Argument::Value(value) => render(value),
            Argument::Spread(value) => format!("(... {})", render(value)),
        })
    )
}

fn render_binding(binding: &Binding) -> String {
    match binding {
        Binding::Identifier(name) => name.name.clone(),
        Binding::Pattern(BindingPattern::Array(pattern)) => {
            let mut parts: Vec<String> = pattern
                .elements
                .iter()
                .map(|element| match element {
                    None => "<hole>".to_string(),
                    Some(element) => render_binding_element(element),
                })
                .collect();
            if let Some(rest) = &pattern.rest {
                parts.push(format!("(... {})", render_binding(rest)));
            }
            format!("[{}]", parts.join(" "))
        }
        Binding::Pattern(BindingPattern::Object(pattern)) => {
            let mut parts: Vec<String> = pattern
                .properties
                .iter()
                .map(|property| {
                    format!("({} {})", render_key(&property.key), render_binding_element(&property.value))
                })
                .collect();
            if let Some(rest) = &pattern.rest {
                parts.push(format!("(... {})", rest.name));
            }
            format!("{{{}}}", parts.join(" "))
        }
    }
}

fn render_binding_element(element: &BindingElement) -> String {
    match &element.default {
        None => render_binding(&element.target),
        Some(default) => format!("(= {} {})", render_binding(&element.target), render(default)),
    }
}

fn render_parameters(parameters: &FormalParameters) -> String {
    let mut parts: Vec<String> = parameters.items.iter().map(render_binding_element).collect();
    if let Some(rest) = &parameters.rest {
        parts.push(format!("(... {})", render_binding(rest)));
    }
    format!("[{}]", parts.join(" "))
}

fn render_target(target: &AssignmentTarget) -> String {
    match target {
        AssignmentTarget::Simple(expr) => render(expr),
        AssignmentTarget::Pattern(pattern) => render_pattern(pattern),
    }
}

fn render_pattern_element(element: &PatternElement) -> String {
    match &element.default {
        None => render_target(&element.target),
        Some(default) => format!("(= {} {})", render_target(&element.target), render(default)),
    }
}

fn render_pattern(pattern: &Pattern) -> String {
    match pattern {
        Pattern::Array(pattern) => {
            let mut parts: Vec<String> = pattern
                .elements
                .iter()
                .map(|element| match element {
                    None => "<hole>".to_string(),
                    Some(element) => render_pattern_element(element),
                })
                .collect();
            if let Some(rest) = &pattern.rest {
                parts.push(format!("(... {})", render_target(rest)));
            }
            format!("[{}]", parts.join(" "))
        }
        Pattern::Object(pattern) => {
            let mut parts: Vec<String> = pattern
                .properties
                .iter()
                .map(|property| {
                    format!("({} {})", render_key(&property.key), render_pattern_element(&property.value))
                })
                .collect();
            if let Some(rest) = &pattern.rest {
                parts.push(format!("(... {})", render(rest)));
            }
            format!("{{{}}}", parts.join(" "))
        }
    }
}

fn render_body(body: &[Stmt]) -> String {
    format!("{{{}}}", list(body, render_statement))
}

fn render_function(function: &Function) -> String {
    let kind = match (function.is_async, function.is_generator) {
        (false, false) => "fn",
        (false, true) => "fn*",
        (true, false) => "async-fn",
        (true, true) => "async-fn*",
    };
    let name = match &function.name {
        Some(name) => name.name.clone(),
        None => "<anon>".to_string(),
    };
    format!("({kind} {name} {} {})", render_parameters(&function.parameters), render_body(&function.body))
}

fn render_class(class: &Class) -> String {
    let name = match &class.name {
        Some(name) => name.name.clone(),
        None => "<anon>".to_string(),
    };
    let heritage = match &class.heritage {
        Some(heritage) => render(heritage),
        None => "-".to_string(),
    };
    let elements = list(&class.elements, |element| match element {
        ClassElement::Method(method) => {
            let mut prefix = String::new();
            if method.is_static {
                prefix.push_str("static ");
            }
            match method.kind {
                MethodKind::Getter => prefix.push_str("get "),
                MethodKind::Setter => prefix.push_str("set "),
                MethodKind::Normal => {}
            }
            format!("({prefix}{} {})", render_key(&method.key), render_function(&method.function))
        }
        ClassElement::Field(field) => {
            let value = match &field.initializer {
                Some(value) => render(value),
                None => "<none>".to_string(),
            };
            let prefix = if field.is_static { "static " } else { "" };
            format!("({prefix}field {} {value})", render_key(&field.key))
        }
        ClassElement::StaticBlock(block) => format!("(static-block {})", render_body(&block.body)),
    });
    format!("(class {name} {heritage} [{elements}])")
}

fn render(expr: &Expr) -> String {
    match &expr.kind {
        ExprKind::This => "this".to_string(),
        ExprKind::Null => "null".to_string(),
        ExprKind::Boolean(value) => value.to_string(),
        ExprKind::Identifier(name) => name.clone(),
        ExprKind::Number(value) => render_number(value),
        ExprKind::BigInt(text) => text.clone(),
        ExprKind::String(units) => format!("{:?}", utf16(units)),
        ExprKind::RegExp(literal) => format!("/{}/{}", literal.body, literal.flags),
        ExprKind::Template(template) => {
            let mut parts: Vec<String> = Vec::new();
            for (k, quasi) in template.quasis.iter().enumerate() {
                parts.push(match &quasi.cooked {
                    Some(units) => format!("{:?}", utf16(units)),
                    None => "<invalid>".to_string(),
                });
                if let Some(expression) = template.expressions.get(k) {
                    parts.push(render(expression));
                }
            }
            format!("(template {})", parts.join(" "))
        }
        ExprKind::TaggedTemplate { tag, quasi } => {
            let cooked: Vec<String> = quasi
                .quasis
                .iter()
                .map(|q| match &q.cooked {
                    Some(units) => format!("{:?}", utf16(units)),
                    None => "<invalid>".to_string(),
                })
                .collect();
            format!("(tag {} {})", render(tag), cooked.join(" "))
        }
        ExprKind::Array(elements) => format!(
            "[{}]",
            list(elements, |element| match element {
                ArrayElement::Hole => "<hole>".to_string(),
                ArrayElement::Value(value) => render(value),
                ArrayElement::Spread { value, .. } => format!("(... {})", render(value)),
            })
        ),
        ExprKind::Object(properties) => format!(
            "{{{}}}",
            list(properties, |property| match property {
                PropertyDefinition::KeyValue { key, value } => {
                    format!("({} {})", render_key(key), render(value))
                }
                PropertyDefinition::Shorthand { name, .. } => name.clone(),
                PropertyDefinition::ShorthandWithDefault { name, default, .. } => {
                    format!("(= {name} {})", render(default))
                }
                PropertyDefinition::Method { key, kind, function } => match kind {
                    MethodKind::Normal => format!("({} {})", render_key(key), render_function(function)),
                    MethodKind::Getter => format!("(get {} {})", render_key(key), render_function(function)),
                    MethodKind::Setter => format!("(set {} {})", render_key(key), render_function(function)),
                },
                PropertyDefinition::Spread { value, .. } => format!("(... {})", render(value)),
            })
        ),
        ExprKind::Function(function) => render_function(function),
        ExprKind::Class(class) => render_class(class),
        ExprKind::Arrow(arrow) => {
            let head = if arrow.is_async { "async=>" } else { "=>" };
            let body = match &arrow.body {
                ArrowBody::Expression(value) => render(value),
                ArrowBody::Block(body) => render_body(body),
            };
            format!("({head} {} {body})", render_parameters(&arrow.parameters))
        }
        ExprKind::Unary { operator, argument } => format!("({} {})", operator.as_str(), render(argument)),
        ExprKind::Update { increment, prefix, argument } => {
            let when = if *prefix { "pre" } else { "post" };
            let op = if *increment { "++" } else { "--" };
            format!("({when}{op} {})", render(argument))
        }
        ExprKind::Binary { operator, left, right } => {
            format!("({} {} {})", operator.as_str(), render(left), render(right))
        }
        ExprKind::Logical { operator, left, right } => {
            format!("({} {} {})", operator.as_str(), render(left), render(right))
        }
        ExprKind::PrivateIn { name, right } => format!("(#in {name} {})", render(right)),
        ExprKind::Conditional { test, consequent, alternate } => {
            format!("(? {} {} {})", render(test), render(consequent), render(alternate))
        }
        ExprKind::Assignment { operator, target, value } => {
            format!("({} {} {})", operator.as_str(), render_target(target), render(value))
        }
        ExprKind::Sequence(items) => format!("(, {})", list(items, render)),
        ExprKind::Member { private, optional, object, property } => {
            let op = if *optional { "?." } else { "." };
            let hash = if *private { "#" } else { "" };
            format!("({op} {} {hash}{property})", render(object))
        }
        ExprKind::ComputedMember { optional, object, property } => {
            let op = if *optional { "?[]" } else { "[]" };
            format!("({op} {} {})", render(object), render(property))
        }
        ExprKind::Call { optional, callee, arguments } => {
            let op = if *optional { "?call" } else { "call" };
            format!("({op} {} {})", render(callee), render_arguments(arguments))
        }
        ExprKind::New { callee, arguments } => {
            format!("(new {} {})", render(callee), render_arguments(arguments))
        }
        ExprKind::OptionalChain(inner) => format!("(?chain {})", render(inner)),
        ExprKind::Super => "super".to_string(),
        ExprKind::NewTarget => "new.target".to_string(),
        ExprKind::ImportMeta => "import.meta".to_string(),
        ExprKind::ImportCall { specifier, options } => match options {
            Some(options) => format!("(import {} {})", render(specifier), render(options)),
            None => format!("(import {})", render(specifier)),
        },
        ExprKind::Yield(expression) => match (&expression.argument, expression.delegate) {
            (None, _) => "(yield)".to_string(),
            (Some(argument), false) => format!("(yield {})", render(argument)),
            (Some(argument), true) => format!("(yield* {})", render(argument)),
        },
        ExprKind::Await(argument) => format!("(await {})", render(argument)),
    }
}

fn render_declaration(declaration: &Declaration) -> String {
    let declarators = list(&declaration.declarators, |declarator| match &declarator.initializer {
        None => render_binding(&declarator.binding),
        Some(value) => format!("{}={}", render_binding(&declarator.binding), render(value)),
    });
    format!("({} {declarators})", declaration.kind.as_str())
}

fn render_statement(statement: &Stmt) -> String {
    match &statement.kind {
        StmtKind::Expression(expr) => render(expr),
        StmtKind::Empty => "<empty>".to_string(),
        StmtKind::Block(body) => render_body(body),
        StmtKind::Declaration(declaration) => render_declaration(declaration),
        StmtKind::Function(function) => render_function(function),
        StmtKind::Class(class) => render_class(class),
        StmtKind::If(statement) => match &statement.alternate {
            None => format!("(if {} {})", render(&statement.test), render_statement(&statement.consequent)),
            Some(alternate) => format!(
                "(if {} {} {})",
                render(&statement.test),
                render_statement(&statement.consequent),
                render_statement(alternate)
            ),
        },
        StmtKind::While(statement) => {
            format!("(while {} {})", render(&statement.test), render_statement(&statement.body))
        }
        StmtKind::DoWhile(statement) => {
            format!("(do {} {})", render_statement(&statement.body), render(&statement.test))
        }
        StmtKind::For(statement) => {
            let init = match &statement.init {
                None => ";".to_string(),
                Some(ForInit::Declaration(declaration)) => render_declaration(declaration),
                Some(ForInit::Expression(expr)) => render(expr),
            };
            let test = statement.test.as_ref().map_or(";".to_string(), render);
            let update = statement.update.as_ref().map_or(";".to_string(), render);
            format!("(for {init} {test} {update} {})", render_statement(&statement.body))
        }
        StmtKind::ForInOf(statement) => {
            let head = match (statement.kind, statement.is_await) {
                (ForInOfKind::In, _) => "for-in",
                (ForInOfKind::Of, false) => "for-of",
                (ForInOfKind::Of, true) => "for-await-of",
            };
            let left = match &statement.left {
                ForInOfTarget::Declaration(declaration) => render_declaration(declaration),
                ForInOfTarget::Expression(target) => render_target(target),
            };
            format!("({head} {left} {} {})", render(&statement.right), render_statement(&statement.body))
        }
        StmtKind::Return(None) => "return".to_string(),
        StmtKind::Return(Some(value)) => format!("(return {})", render(value)),
        StmtKind::Break(None) => "break".to_string(),
        StmtKind::Break(Some(label)) => format!("(break {})", label.name),
        StmtKind::Continue(None) => "continue".to_string(),
        StmtKind::Continue(Some(label)) => format!("(continue {})", label.name),
        StmtKind::Throw(value) => format!("(throw {})", render(value)),
        StmtKind::Labelled(statement) => {
            format!("(label {} {})", statement.label.name, render_statement(&statement.body))
        }
        StmtKind::Try(statement) => {
            let mut parts = vec![render_body(&statement.block)];
            if let Some(handler) = &statement.handler {
                parts.push(match &handler.parameter {
                    Some(parameter) => {
                        format!("(catch {} {})", render_binding(parameter), render_body(&handler.body))
                    }
                    None => format!("(catch {})", render_body(&handler.body)),
                });
            }
            if let Some(finalizer) = &statement.finalizer {
                parts.push(format!("(finally {})", render_body(finalizer)));
            }
            format!("(try {})", parts.join(" "))
        }
        StmtKind::Switch(statement) => {
            let cases = list(&statement.cases, |case| match &case.test {
                Some(test) => format!("(case {} {})", render(test), render_body(&case.body)),
                None => format!("(default {})", render_body(&case.body)),
            });
            format!("(switch {} [{cases}])", render(&statement.discriminant))
        }
        StmtKind::With(statement) => {
            format!("(with {} {})", render(&statement.object), render_statement(&statement.body))
        }
        StmtKind::Debugger => "debugger".to_string(),
    }
}

fn array_literal_length(source: &str) -> usize {
    let expr = parse_expression(source)
        .unwrap_or_else(|err| panic!("{source:?} should parse, got {:?}", err.kind));
    match expr.kind {
        ExprKind::Array(elements) => elements.len(),
        other => panic!("{source:?} parsed as {other:?}"),
    }
}

#[test]
fn a_comma_is_a_hole_when_nothing_precedes_it_and_a_separator_otherwise() {

    assert_eq!(array_literal_length("[]"), 0);
    assert_eq!(array_literal_length("[1]"), 1);
    assert_eq!(array_literal_length("[1, 2]"), 2);
    assert_eq!(
        array_literal_length("[1, 2, ]"),
        2,
        "a trailing comma is a separator with nothing after it"
    );
    assert_eq!(array_literal_length("[,]"), 1, "…while a leading one is a hole");
    assert_eq!(array_literal_length("[, , ]"), 2);
    assert_eq!(array_literal_length("[1, ]"), 1);
    assert_eq!(array_literal_length("[1, , ]"), 2);
    assert_eq!(array_literal_length("[, 1]"), 2);
    assert_eq!(array_literal_length("[, , 1]"), 3);
    assert_eq!(array_literal_length("[1, , 2]"), 3);
    assert_eq!(array_literal_length("[a, b, , ]"), 3);

    assert_eq!(shape("[]"), "[]");
    assert_eq!(shape("[1]"), "[1]");
    assert_eq!(shape("[1, 2]"), "[1 2]");
    assert_eq!(shape("[, 1]"), "[<hole> 1]");
    assert_eq!(shape("[1, , 2]"), "[1 <hole> 2]");
    assert_eq!(shape("[1, ]"), "[1]");
    assert_eq!(shape("[a, b, , ]"), "[a b <hole>]");
    let script = parse_script("[1, 2];").expect("this parses");
    assert_eq!(script.body[0].span, praxis::span::Span::new(0, 7));
}

#[test]
fn an_element_is_an_assignment_expression_so_a_comma_never_sequences() {

    assert_eq!(shape("[a, b]"), "[a b]");
    assert_eq!(shape("[(a, b)]"), "[(, a b)]");
    assert_eq!(shape("[a = 1]"), "[(= a 1)]");
    assert_eq!(shape("[a ? b : c]"), "[(? a b c)]");
    assert_eq!(shape("[[1], [2]]"), "[[1] [2]]");
    assert_eq!(
        shape("[a in b]"),
        "[(in a b)]",
        "a bracket is `[+In]` whatever encloses it"
    );

    assert!(parse_script("for ([a in b];;);").is_ok());
}

#[test]
fn a_spread_element_takes_the_place_of_one_element() {
    assert_eq!(shape("[...a]"), "[(... a)]");
    assert_eq!(shape("[...a, b]"), "[(... a) b]");
    assert_eq!(shape("[a, ...b]"), "[a (... b)]");
    assert_eq!(shape("[, ...a]"), "[<hole> (... a)]");
    assert_eq!(shape("[...a, ]"), "[(... a)]");
    assert_eq!(array_literal_length("[...a, b]"), 2);

    assert!(parse_expression("[...]").is_err());
    assert!(parse_expression("[..., a]").is_err());
    assert_eq!(shape("[...a = b]"), "[(... (= a b))]");
}

#[test]
fn an_array_is_a_value_here_and_a_pattern_only_where_an_equals_says_so() {

    assert!(parse_script("[a] = b;").is_ok());
    assert!(parse_script("for ([a] of b);").is_ok());

    assert!(parse_script("a = [1, 2];").is_ok());
    assert!(parse_script("f([1], [2]);").is_ok());
    assert!(parse_script("[1, 2].length;").is_ok());

    assert!(parse_script("[1] == b;").is_ok());
    assert_eq!(
        array_literal_script_error_kind("[1] = b;"),
        ParseErrorKind::InvalidDestructuringTarget
    );
}

fn array_literal_script_error_kind(source: &str) -> ParseErrorKind {
    match parse_script(source) {
        Err(err) => err.kind,
        Ok(script) => panic!("{source:?} should not parse, got {script:?}"),
    }
}

#[test]
fn no_array_however_truncated_can_panic() {
    let cases = [
        "[".to_string(),
        "[1".to_string(),
        "[1,".to_string(),
        "[,".to_string(),
        "[...".to_string(),
        "]".to_string(),
        "[a b]".to_string(),
        "[".repeat(10_000),
        format!("[{}]", ",".repeat(100_000)),
        format!("[{}]", "1,".repeat(100_000)),
    ];
    for source in &cases {
        let _ = parse_expression(source);
    }

    assert_eq!(array_literal_length(&format!("[{}]", "1,".repeat(10_000))), 10_000);
    assert_eq!(array_literal_length(&format!("[{}]", ",".repeat(10_000))), 10_000);
    assert_eq!(
        parse_expression(&"[".repeat(10_000))
            .map(|_| ())
            .unwrap_err()
            .kind,
        ParseErrorKind::TooDeeplyNested
    );
}

fn arrow_kind(source: &str) -> ParseErrorKind {
    match parse_script(source) {
        Err(err) => err.kind,
        Ok(script) => panic!("{source:?} should not parse, got {script:?}"),
    }
}

#[test]
fn both_shapes_of_arrow_parameters_and_both_shapes_of_body() {
    assert_eq!(shape("a => b"), "(=> [a] b)");
    assert_eq!(shape("(a) => b"), "(=> [a] b)");
    assert_eq!(shape("() => b"), "(=> [] b)");
    assert_eq!(shape("(a, b) => c"), "(=> [a b] c)");
    assert_eq!(shape("(a,) => b"), "(=> [a] b)");
    assert_eq!(shape("(...a) => b"), "(=> [(... a)] b)");
    assert_eq!(shape("(a, ...b) => c"), "(=> [a (... b)] c)");
    assert_eq!(shape("(a = 1) => b"), "(=> [(= a 1)] b)");
    assert_eq!(shape("([a]) => b"), "(=> [[a]] b)");
    assert_eq!(shape("({a}) => b"), "(=> [{(a a)}] b)");
    assert_eq!(shape("({a: b}) => c"), "(=> [{(a b)}] c)");
    assert_eq!(shape("([a, ...b]) => c"), "(=> [[a (... b)]] c)");

    assert_eq!(shape("() => {}"), "(=> [] {})");
    assert_eq!(shape("() => ({})"), "(=> [] {})");
    assert_eq!(shape("a => { return 1; }"), "(=> [a] {(return 1)})");

    assert_eq!(shape("a => b + c"), "(=> [a] (+ b c))");
    assert_eq!(shape("a => b ? c : d"), "(=> [a] (? b c d))");
    assert_eq!(shape("a => b = c"), "(=> [a] (= b c))");
    assert_eq!(shape("a => b, c"), "(, (=> [a] b) c)");
    assert_eq!(shape("a => b => c"), "(=> [a] (=> [b] c))");
    assert_eq!(shape("a => b.c"), "(=> [a] (. b c))");
}

#[test]
fn an_arrow_may_stand_only_where_an_assignment_expression_may() {

    for source in [
        "x + (a) => b;",
        "x + a => b;",
        "x * (a) => b;",
        "typeof (a) => b;",
        "-(a) => b;",
        "!(a) => b;",
        "new (a) => b;",
    ] {
        assert!(parse_script(source).is_err(), "{source:?}");
    }

    assert!(parse_script("x, (a) => b;").is_ok());
    assert!(parse_script("f(a => b);").is_ok());
    assert!(parse_script("[a => b];").is_ok());
    assert!(parse_script("a ? (b) => c : d;").is_ok());
    assert!(parse_script("x = a => b;").is_ok());
    assert!(parse_script("({a: b => c});").is_ok());

    assert_eq!(shape("((a) => b).c"), "(. (=> [a] b) c)");
    assert_eq!(shape("((a) => b) ** c"), "(** (=> [a] b) c)");
}

#[test]
fn a_newline_before_the_arrow_means_there_was_no_arrow() {

    assert_eq!(
        arrow_kind("a\n=> b;"),
        ParseErrorKind::Unexpected {
            expected: "an expression",
            found: praxis::lexer::TokenKind::Arrow,
        }
    );
    assert!(parse_script("(a)\n=> b;").is_err());

    assert!(parse_script("(a) =>\nb;").is_ok());
    assert!(parse_script("a =>\n{ return; };").is_ok());
}

#[test]
fn three_of_the_covers_productions_are_not_expressions_at_all() {

    for source in ["();", "(a,);", "(...a);", "(a, ...b);", "(a, b,);"] {
        assert_eq!(
            arrow_kind(source),
            ParseErrorKind::CoverGroupIsNotAnExpression,
            "{source:?}"
        );
    }

    assert_eq!(shape("(a)"), "a");
    assert_eq!(shape("(a, b)"), "(, a b)");
    assert!(parse_expression("(a)").expect("this parses").parenthesized);

    assert_eq!(shape("(a, b) => c"), "(=> [a b] c)");
    assert_eq!(shape("(a, b).c"), "(. (, a b) c)");
    assert_eq!(shape("(a)++"), "(post++ a)");
    assert_eq!(shape("(a)(b)"), "(call a [b])");
}

#[test]
fn a_parameter_is_a_binding_so_it_is_narrower_than_an_assignment_target() {

    for source in [
        "(a.b) => c;",
        "(1) => b;",
        "([a.b]) => c;",
        "({a: b.c}) => d;",
    ] {
        assert_eq!(
            arrow_kind(source),
            ParseErrorKind::InvalidArrowParameter,
            "{source:?}"
        );
    }

    assert!(parse_script("[a.b] = c;").is_ok());
    assert!(parse_script("({a: b.c} = d);").is_ok());

    assert_eq!(arrow_kind("(a, a) => b;"), ParseErrorKind::DuplicateParameterName);
    assert_eq!(
        arrow_kind("([a], a) => b;"),
        ParseErrorKind::DuplicateParameterName
    );

    assert_eq!(
        arrow_kind("(a += 1) => b;"),
        ParseErrorKind::InvalidArrowParameter
    );

    assert_eq!(
        arrow_kind("([...a, b]) => c;"),
        ParseErrorKind::RestElementMustBeLast
    );
    assert_eq!(
        arrow_kind("({...a, b}) => c;"),
        ParseErrorKind::RestElementMustBeLast
    );
    assert!(parse_script("([...a]) => b;").is_ok());
    assert!(parse_script("({...a}) => b;").is_ok());

    assert!(parse_script("(...a,) => b;").is_err());
    assert!(parse_script("function f(a, a) {}").is_ok());

    assert_eq!(
        arrow_kind("(a) => { let a; };"),
        ParseErrorKind::ParameterRedeclaredInBody
    );
    assert!(parse_script("() => { return; };").is_ok());
    assert_eq!(
        arrow_kind("() => { break; };"),
        ParseErrorKind::BreakOutsideLoop,
        "an arrow body is where the walks stop, like any other function body"
    );
}

#[test]
fn the_parameters_were_references_and_the_strict_rules_are_about_bindings() {

    assert_eq!(
        arrow_kind("\"use strict\"; (eval) => 1;"),
        ParseErrorKind::StrictEvalOrArguments
    );
    assert_eq!(
        arrow_kind("\"use strict\"; ([eval]) => 1;"),
        ParseErrorKind::StrictEvalOrArguments
    );
    assert_eq!(
        arrow_kind("\"use strict\"; (let) => 1;"),
        ParseErrorKind::StrictReservedWord
    );
    assert!(parse_script("(eval) => 1;").is_ok());

    assert_eq!(
        arrow_kind("(eval) => { \"use strict\"; };"),
        ParseErrorKind::StrictEvalOrArguments
    );
    assert_eq!(
        arrow_kind("(a = 1) => { \"use strict\"; };"),
        ParseErrorKind::UseStrictWithNonSimpleParameters
    );
    assert!(parse_script("(a) => { \"use strict\"; };").is_ok());
}

#[test]
fn no_arrow_however_truncated_can_panic() {
    let cases = [
        "(".to_string(),
        "(a".to_string(),
        "(a,".to_string(),
        "(...".to_string(),
        "a =>".to_string(),
        "() =>".to_string(),
        "() => {".to_string(),
        "a => ".repeat(1000),
        "(".repeat(10_000),
        format!(
            "({}) => 1",
            (0..10_000).map(|i| format!("a{i}, ")).collect::<String>()
        ),
    ];
    for source in &cases {
        let _ = parse_script(source);
    }

    assert_eq!(
        arrow_kind(&format!("{}1;", "a => ".repeat(1000))),
        ParseErrorKind::TooDeeplyNested
    );

    let many: String = (0..2_000).map(|i| format!("a{i}, ")).collect();
    assert!(parse_expression(&format!("({many}b) => 1")).is_ok());
}

fn asynchronous_kind(source: &str) -> ParseErrorKind {
    script_error(source).kind
}

#[test]
fn async_is_a_word_before_function_and_a_name_everywhere_else() {
    assert_eq!(statements("async function f() {}"), ["(async-fn f [] {})"]);
    assert_eq!(shape("(async function () {})"), "(async-fn <anon> [] {})");
    assert_eq!(shape("(async function f() {})"), "(async-fn f [] {})");

    assert_eq!(
        statements("async function* f() {}"),
        ["(async-fn* f [] {})"]
    );

    for source in [
        "async;",
        "async = 1;",
        "async(a);",
        "async.a;",
        "async++;",
        "var async;",
        "let async = 1; async(1);",
        "({ async: 1 });",
        "({ async });",
        "async => 1;",
    ] {
        assert!(parse_script(source).is_ok(), "{source:?}");
    }

    assert_eq!(
        statements("async\nfunction f() {}"),
        ["async", "(fn f [] {})"]
    );

    for source in ["if (a) async function f() {}", "a: async function f() {}"] {
        assert_eq!(
            asynchronous_kind(source),
            ParseErrorKind::DeclarationInStatementPosition,
            "{source:?}"
        );
    }
}

#[test]
fn an_async_method_is_the_word_then_the_name_and_has_no_accessor_form() {
    assert_eq!(shape("({async m() {}})"), "{(m (async-fn <anon> [] {}))}");
    assert_eq!(shape("({async *m() {}})"), "{(m (async-fn* <anon> [] {}))}");
    assert_eq!(
        statements("class C { async m() {} }"),
        ["(class C - [(m (async-fn <anon> [] {}))])"]
    );
    assert_eq!(
        statements("class C { static async *m() {} }"),
        ["(class C - [(static m (async-fn* <anon> [] {}))])"]
    );

    for source in [
        "({async() {}});",
        "class C { async() {} }",
        "class C { static async() {} }",
        "class C { get async() {} }",
        "({ get async() {} });",
        "({ set async(v) {} });",
        "class C { async async() {} }",
        "({ *async() {} });",
    ] {
        assert!(parse_script(source).is_ok(), "{source:?}");
    }

    assert!(parse_expression("({async\nm() {}})").is_err());

    assert!(parse_script("class C { async get m() {} }").is_err());
    assert!(parse_script("class C { get *m() {} }").is_err());

    assert_eq!(
        asynchronous_kind("class C { async constructor() {} }"),
        ParseErrorKind::ConstructorMayNotBeAsync
    );
    assert_eq!(
        asynchronous_kind("class C { async *constructor() {} }"),
        ParseErrorKind::ConstructorMayNotBeAGenerator
    );
    assert_eq!(
        asynchronous_kind("class C { static async prototype() {} }"),
        ParseErrorKind::StaticPrototype
    );

    assert!(parse_script("class C { async m() { super.a; } }").is_ok());
    assert!(parse_script("async function f() { super.a; }").is_err());
}

#[test]
fn await_takes_a_unary_expression_which_is_where_it_differs_from_yield() {
    assert_eq!(
        shape("(async function () { await a; })"),
        "(async-fn <anon> [] {(await a)})"
    );

    assert_eq!(
        shape("(async function () { await a + b })"),
        "(async-fn <anon> [] {(+ (await a) b)})"
    );
    assert_eq!(
        shape("(async function () { await a ? b : c })"),
        "(async-fn <anon> [] {(? (await a) b c)})"
    );
    for source in [
        "await a in b;",
        "await a.b;",
        "await a();",
        "await await a;",
        "typeof await a;",
        "delete await a;",
        "-await a;",
        "await -a;",
        "a = await b;",
        "await a, b;",
        "[await a];",
        "f(await a);",
        "[...await a];",
        "`${await a}`;",
        "await `x`;",
        "await /a/;",
        "await a?.b;",
        "return await a;",
        "throw await a;",
        "if (await a) ;",
        "switch (await a) {}",
    ] {
        assert!(
            parse_script(&format!("async function f() {{ {source} }}")).is_ok(),
            "{source:?}"
        );
    }

    assert_eq!(
        asynchronous_kind("async function f() { await a ** b; }"),
        ParseErrorKind::ExponentiationOnUnary
    );
    assert!(parse_script("async function f() { (await a) ** b; }").is_ok());

    assert!(parse_script("async function f() { await; }").is_err());
    assert!(parse_script("async function f() { await ...a; }").is_err());

    assert!(parse_script("async function f() { await\na; }").is_ok());

    assert!(parse_script("async function f() { new await a; }").is_err());
}

#[test]
fn the_await_parameter_turns_on_and_off_exactly_where_the_yield_one_does() {

    assert_eq!(statements("await;"), ["await"]);
    assert_eq!(statements("var await;"), ["(var await)"]);
    assert!(parse_script("await a;").is_err());
    assert!(parse_script("function f() { await a; }").is_err());

    assert!(parse_script("async function f() { function g(await) {} }").is_ok());
    assert!(parse_script("async function f() { (function () { await; }); }").is_ok());
    assert!(parse_script("async function f() { ({ m(a = await b) {} }); }").is_err());
    assert!(parse_script("async function f() { function g() { await a; } }").is_err());
    assert!(parse_script("async function f() { ({ async m() { await a; } }); }").is_ok());

    assert!(parse_script("async function f() { yield; }").is_ok());
    assert!(parse_script("async function f() { (function* () { await a; }); }").is_err());

    assert!(parse_script("async function* g() { await a; yield b; }").is_ok());

    for source in ["var await;", "class await {}", "await: 1;", "({await});"] {
        assert!(
            parse_script(&format!("async function f() {{ {source} }}")).is_err(),
            "{source:?}"
        );
    }

    assert!(parse_script("async function f() { a.await; ({await: 1}); }").is_ok());

    assert!(parse_script("async function await() {}").is_ok());
    assert!(parse_script("async function f() { (function await() {}); }").is_ok());
    assert!(parse_expression("(async function await() {})").is_err());
    assert!(parse_script("async function f() { var await; }").is_err());

    assert!(parse_script("async function f() { () => await; }").is_ok());
    assert!(parse_script("async function f() { () => await a; }").is_err());
    assert!(parse_script("async function f(a = () => await) {}").is_ok());
}

#[test]
fn one_record_serves_both_contains_rules_because_only_one_can_ever_apply() {

    for source in [
        "async function f(a = await b) {}",
        "async function f(a = (await b)) {}",
        "async function* g(a = await b) {}",
        "({ async m(a = await b) {} });",
        "async function f() { (async function (a = await b) {}); }",
    ] {
        assert_eq!(
            asynchronous_kind(source),
            ParseErrorKind::AwaitInParameters,
            "{source:?}"
        );
    }

    assert!(parse_script("async function f(await) {}").is_err());

    assert_eq!(
        asynchronous_kind("async function* g(a = yield b) {}"),
        ParseErrorKind::YieldInParameters
    );

    for source in [
        "async function f(a = function () { await; }) {}",
        "async function f(a = () => await) {}",
        "async function f(a = { m() { await; } }) {}",
    ] {
        assert!(parse_script(source).is_ok(), "{source:?}");
    }
}

#[test]
fn no_async_function_however_truncated_can_panic() {
    let deep = format!("async function f() {{ {}1; }}", "await ".repeat(1000));
    let cases = [
        "async".to_string(),
        "async function".to_string(),
        "async function f".to_string(),
        "async function f(".to_string(),
        "async function f() {".to_string(),
        "async function f() { await".to_string(),
        "async function*".to_string(),
        "({async".to_string(),
        "({async m".to_string(),
        "class C { async".to_string(),
        "class C { async *".to_string(),
        deep.clone(),
    ];
    for source in &cases {
        let _ = parse_script(source);
    }

    assert_eq!(asynchronous_kind(&deep), ParseErrorKind::TooDeeplyNested);
}

fn binding_kind(source: &str) -> ParseErrorKind {
    script_error(source).kind
}

#[test]
fn all_three_keywords_take_a_pattern_where_they_take_a_name() {
    assert_eq!(statements("let [a] = b;"), ["(let [a]=b)"]);
    assert_eq!(statements("var [a] = b;"), ["(var [a]=b)"]);
    assert_eq!(statements("const [a] = b;"), ["(const [a]=b)"]);
    assert_eq!(statements("let {a} = b;"), ["(let {(a a)}=b)"]);
    assert_eq!(statements("let [a, b] = c;"), ["(let [a b]=c)"]);
    assert_eq!(statements("let [] = b;"), ["(let []=b)"]);
    assert_eq!(statements("let {} = b;"), ["(let {}=b)"]);

    assert_eq!(statements("let a, [b] = c;"), ["(let a [b]=c)"]);
    assert_eq!(statements("let [a] = b, [c] = d;"), ["(let [a]=b [c]=d)"]);

    assert_eq!(statements("let [, a] = b;"), ["(let [<hole> a]=b)"]);
    assert_eq!(statements("let [a, ] = b;"), ["(let [a]=b)"]);

    assert_eq!(statements("let {a: [b]} = c;"), ["(let {(a [b])}=c)"]);
    assert_eq!(statements("let [[a]] = b;"), ["(let [[a]]=b)"]);
}

#[test]
fn a_pattern_always_takes_an_initialiser_and_a_name_does_not_always() {

    assert_eq!(
        script_error("let [a];").kind,
        ParseErrorKind::PatternWithoutInitializer
    );
    assert_eq!(
        script_error("var [a];").kind,
        ParseErrorKind::PatternWithoutInitializer
    );
    assert_eq!(
        script_error("var {a};").kind,
        ParseErrorKind::PatternWithoutInitializer
    );
    assert_eq!(
        script_error("const [a];").kind,
        ParseErrorKind::PatternWithoutInitializer
    );

    assert!(parse_script("var a;").is_ok());
    assert!(parse_script("let a;").is_ok());
    assert_eq!(
        script_error("const a;").kind,
        ParseErrorKind::ConstWithoutInitializer
    );

    assert!(parse_script("for (let [a] of b);").is_ok());
    assert!(parse_script("for (var {a} in b);").is_ok());
    assert!(parse_script("for (const [a] of b);").is_ok());
    assert_eq!(
        script_error("for (let [a] = 1 of b);").kind,
        ParseErrorKind::ForInOfBindingHasInitializer
    );

    assert!(parse_script("for (let [a] = b;;);").is_ok());
    assert_eq!(
        script_error("for (let [a];;);").kind,
        ParseErrorKind::PatternWithoutInitializer
    );
}

#[test]
fn a_binding_target_is_a_name_being_created_and_never_a_place_to_put_one() {

    assert!(parse_script("[a.b] = c;").is_ok());
    assert!(parse_script("let [a.b] = c;").is_err());
    assert!(parse_script("let {a: b.c} = d;").is_err());
    assert!(parse_script("let [1] = b;").is_err());
    assert!(parse_script("let {a: 1} = b;").is_err());
    assert!(parse_script("let [f()] = b;").is_err());

    assert_eq!(statements("let {if: a} = b;"), ["(let {(if a)}=b)"]);
    assert!(parse_script("let {if} = b;").is_err());
    assert_eq!(statements("let {[x]: a} = b;"), ["(let {([x] a)}=b)"]);
    assert_eq!(statements("let {1: a} = b;"), ["(let {(n1 a)}=b)"]);
}

#[test]
fn defaults_and_rest_elements_are_where_the_two_rests_part_company() {
    assert_eq!(statements("let [a = 1] = b;"), ["(let [(= a 1)]=b)"]);
    assert_eq!(statements("let {a = 1} = b;"), ["(let {(a (= a 1))}=b)"]);
    assert_eq!(statements("let {a: b = 1} = c;"), ["(let {(a (= b 1))}=c)"]);
    assert_eq!(statements("let [...a] = b;"), ["(let [(... a)]=b)"]);
    assert_eq!(statements("let [a, ...b] = c;"), ["(let [a (... b)]=c)"]);
    assert_eq!(statements("let {...a} = b;"), ["(let {(... a)}=b)"]);
    assert_eq!(
        statements("let {a, ...b} = c;"),
        ["(let {(a a) (... b)}=c)"]
    );

    assert_eq!(statements("let [...[a]] = b;"), ["(let [(... [a])]=b)"]);
    assert_eq!(
        script_error("let {...[a]} = b;").kind,
        ParseErrorKind::RestTargetMayNotBePattern
    );
    assert!(parse_script("let {...a.b} = c;").is_err());

    assert_eq!(
        script_error("let [...a, b] = c;").kind,
        ParseErrorKind::RestElementMustBeLast
    );
    assert_eq!(
        script_error("let [...a, ] = b;").kind,
        ParseErrorKind::RestElementMustBeLast
    );
    assert_eq!(
        script_error("let {a, ...b, c} = d;").kind,
        ParseErrorKind::RestElementMustBeLast
    );
}

#[test]
fn every_early_error_about_bound_names_now_reads_the_whole_pattern() {

    assert_eq!(
        script_error("let [a, a] = b;").kind,
        ParseErrorKind::DuplicateLexicalBinding
    );
    assert_eq!(
        script_error("let {a, a} = b;").kind,
        ParseErrorKind::DuplicateLexicalBinding
    );
    assert_eq!(
        script_error("let [a] = b, [a] = c;").kind,
        ParseErrorKind::DuplicateLexicalBinding
    );
    assert_eq!(
        script_error("let [let] = b;").kind,
        ParseErrorKind::LetAsLexicalBindingName
    );

    assert!(parse_script("var [a, a] = b;").is_ok());
    assert!(parse_script("var [let] = b;").is_ok());

    assert_eq!(
        script_error("let [a] = b; var a;").kind,
        ParseErrorKind::ConflictingVarAndLexicalDeclaration
    );
    assert_eq!(
        script_error("let {x: a} = b; { var a; }").kind,
        ParseErrorKind::ConflictingVarAndLexicalDeclaration
    );

    assert_eq!(
        script_error("for (let [a] = b;;) { var a; }").kind,
        ParseErrorKind::ConflictingVarAndLexicalDeclaration
    );
    assert_eq!(
        script_error("for (let {a} of b) { var a; }").kind,
        ParseErrorKind::ConflictingVarAndLexicalDeclaration
    );
}

#[test]
fn no_binding_pattern_however_odd_can_panic() {
    let cases = [
        "let [".to_string(),
        "let [a".to_string(),
        "let {".to_string(),
        "let {a".to_string(),
        "let {a:".to_string(),
        "let [...".to_string(),
        "let {...".to_string(),
        format!("let {}a{} = b;", "[".repeat(10_000), "]".repeat(10_000)),
        format!("let [{}] = b;", "a, ".repeat(100_000)),
    ];
    for source in &cases {
        let _ = parse_script(source);
    }

    assert_eq!(
        script_error(&format!(
            "let {}a{} = b;",
            "[".repeat(10_000),
            "]".repeat(10_000)
        ))
        .kind,
        ParseErrorKind::TooDeeplyNested
    );
    assert!(parse_script(&format!("let [{}] = b;", "a, ".repeat(10_000))).is_err());
}

#[test]
fn a_literal_refined_into_a_binding_has_found_what_makes_its_shorthand_legal() {

    assert_eq!(shape("({a = 1}) => b"), "(=> [{(a (= a 1))}] b)");
    for source in [
        "({a = 1}) => b;",
        "({a = 1, b}) => c;",
        "({a: {b = 1}}) => c;",
        "({a = 1}, b) => c;",
        "([{a = 1}]) => b;",
        "async ({a = 1}) => b;",
        "({a = 1} = {}) => b;",
    ] {
        assert!(parse_script(source).is_ok(), "{source:?}");
    }

    for source in [
        "({a = 1});",
        "f({a = 1});",
        "async({a = 1});",
        "[{a = 1}];",
        "({a = 1}) + 1;",
    ] {
        assert_eq!(
            binding_kind(source),
            ParseErrorKind::ShorthandPropertyWithInitializer,
            "{source:?}"
        );
    }
}

#[test]
fn a_parameters_default_may_have_a_pattern_for_its_target() {

    assert_eq!(shape("({a} = {}) => b"), "(=> [(= {(a a)} {})] b)");
    assert_eq!(shape("([a] = []) => b"), "(=> [(= [a] [])] b)");
    for source in [
        "(a, {b} = {}) => c;",
        "([a = 1] = []) => b;",
        "({a: {b}} = {}) => c;",
        "([[a]] = []) => b;",
        "({...a} = {}) => b;",
        "([...a] = []) => b;",
        "({} = {}) => a;",
        "([] = []) => a;",
        "({a, ...b} = {}) => c;",
        "({a} = {}, [b] = []) => c;",
        "({a: {b} = {}} = {}) => c;",
        "async ({a} = {}) => b;",
    ] {
        assert!(parse_script(source).is_ok(), "{source:?}");
    }

    for source in [
        "({a: b.c} = {}) => d;",
        "([a.b] = []) => c;",
        "({...a.b}) => c;",
        "([...a.b]) => c;",
    ] {
        assert!(parse_script(source).is_err(), "{source:?}");
    }

    assert!(parse_script("({a: b.c} = {});").is_ok());
    assert!(parse_script("[a.b] = [];").is_ok());
}

#[test]
fn a_comma_after_a_rest_is_carried_by_the_element_that_it_followed() {

    for source in [
        "[...a,] = b;",
        "[[...a,]] = b;",
        "({x: [...a,]} = b);",
        "([...a,]) => b;",
        "([[...a,]]) => b;",
        "({p: [...a,]}) => b;",
        "var [[...a,]] = b;",
    ] {
        assert_eq!(
            binding_kind(source),
            ParseErrorKind::RestElementMustBeLast,
            "{source:?}"
        );
    }

    for source in [
        "({...a,} = b);",
        "({...a,}) => b;",
        "[{...a,}] = b;",
        "({p: {...a,}} = b);",
    ] {
        assert_eq!(
            binding_kind(source),
            ParseErrorKind::RestElementMustBeLast,
            "{source:?}"
        );
    }

    for source in [
        "[...a,];",
        "({...a,});",
        "[...a,]; [b] = c;",
        "[a, ...b,]; [c] = d;",
        "f([...a,]); [b] = c;",
        "[[...a,]]; [b] = c;",
        "x = [...a,]; [b] = c;",
        "(x = [...a,], [b]) => c;",
        "([b], x = [...a,]) => c;",
        "[x = [...a,], [b]] = c;",
        "function f(x = [...a,], [b]) {}",
        "var x = [...a,], [b] = c;",
    ] {
        assert!(parse_script(source).is_ok(), "{source:?}");
    }

    assert!(parse_script("[...a, b];").is_ok());
    assert_eq!(
        binding_kind("[...a, b] = c;"),
        ParseErrorKind::RestElementMustBeLast
    );
}

fn class_kind(source: &str) -> ParseErrorKind {
    script_error(source).kind
}

#[test]
fn a_class_is_a_name_a_heritage_and_a_list_of_methods() {
    assert_eq!(statements("class C {}"), ["(class C - [])"]);
    assert_eq!(statements("class C extends D {}"), ["(class C D [])"]);
    assert_eq!(shape("(class {})"), "(class <anon> - [])");
    assert_eq!(shape("(class C {})"), "(class C - [])");
    assert_eq!(
        statements("class C { m() {} }"),
        ["(class C - [(m (fn <anon> [] {}))])"]
    );
    assert_eq!(
        statements("class C { get a() {} set a(v) {} }"),
        ["(class C - [(get a (fn <anon> [] {})) (set a (fn <anon> [v] {}))])"]
    );
    assert_eq!(
        statements("class C { static m() {} }"),
        ["(class C - [(static m (fn <anon> [] {}))])"]
    );
    assert_eq!(
        statements("class C { [a]() {} 1() {} \"s\"() {} }"),
        [
            "(class C - [([a] (fn <anon> [] {})) (n1 (fn <anon> [] {})) (s\"s\" (fn <anon> [] {}))])"
        ]
    );

    assert_eq!(statements("class C { ; }"), ["(class C - [])"]);
    assert_eq!(
        statements("class C { ;; m() {} ; }"),
        ["(class C - [(m (fn <anon> [] {}))])"]
    );

    for source in [
        "class C extends a.b {}",
        "class C extends f() {}",
        "class C extends new D {}",
        "class C extends (a, b) {}",
        "class C extends {} {}",
    ] {
        assert!(parse_script(source).is_ok(), "{source:?}");
    }
    assert!(parse_script("class C extends a => b {}").is_err());
}

#[test]
fn a_class_declaration_needs_a_name_and_a_class_expression_does_not() {
    assert_eq!(shape("(class {})"), "(class <anon> - [])");
    assert!(parse_expression("class extends D {}").is_ok());

    assert!(parse_script("class {}").is_err());
    assert!(parse_script("class extends D {}").is_err());
}

#[test]
fn a_class_is_a_declaration_so_it_is_lexically_scoped_and_not_a_statement() {

    assert_eq!(
        class_kind("class C {} class C {}"),
        ParseErrorKind::DuplicateLexicalBinding
    );
    assert_eq!(
        class_kind("{ class C {} class C {} }"),
        ParseErrorKind::DuplicateLexicalBinding
    );
    assert_eq!(
        class_kind("class C {} var C;"),
        ParseErrorKind::ConflictingVarAndLexicalDeclaration
    );
    assert_eq!(
        class_kind("class C {} function C() {}"),
        ParseErrorKind::ConflictingVarAndLexicalDeclaration,
        "a function is var-scoped at a top level and a class is not, so the two collide"
    );
    assert_eq!(
        class_kind("let C; class C {}"),
        ParseErrorKind::DuplicateLexicalBinding
    );
    assert!(parse_script("function f() {} function f() {}").is_ok());

    for source in ["if (a) class C {}", "for (;;) class C {}", "a: class C {}"] {
        assert_eq!(
            class_kind(source),
            ParseErrorKind::DeclarationInStatementPosition,
            "{source:?}"
        );
    }
    assert!(parse_script("(class C {});").is_ok());
}

#[test]
fn every_part_of_a_class_is_strict_code_with_no_directive_to_write() {

    assert_eq!(
        class_kind("class C { m() { with (a) {} } }"),
        ParseErrorKind::StrictWith
    );
    assert_eq!(
        class_kind("class C { m(a, a) {} }"),
        ParseErrorKind::DuplicateParameterName
    );
    assert_eq!(
        class_kind("class C { m() { delete a; } }"),
        ParseErrorKind::StrictDeleteOfName
    );
    assert!(parse_script("with (a) {} function f(b, b) {}").is_ok());

    assert_eq!(class_kind("class yield {}"), ParseErrorKind::StrictReservedWord);
    assert_eq!(class_kind("class eval {}"), ParseErrorKind::StrictEvalOrArguments);
    assert_eq!(
        class_kind("(class yield {});"),
        ParseErrorKind::StrictReservedWord
    );

    assert_eq!(
        class_kind("class C extends yield {}"),
        ParseErrorKind::StrictReservedWord
    );

    assert!(parse_script("class await {}").is_ok());

    assert!(parse_script("class C {} with (a) {}").is_ok());
}

#[test]
fn a_class_has_at_most_one_constructor_and_it_is_not_an_accessor() {
    assert!(parse_script("class C { constructor() {} }").is_ok());
    assert_eq!(
        class_kind("class C { constructor() {} constructor() {} }"),
        ParseErrorKind::DuplicateConstructor
    );

    assert_eq!(
        class_kind("class C { \"constructor\"() {} constructor() {} }"),
        ParseErrorKind::DuplicateConstructor
    );

    assert!(parse_script("class C { [\"constructor\"]() {} constructor() {} }").is_ok());

    assert!(parse_script("class C { static constructor() {} constructor() {} }").is_ok());
    assert_eq!(
        class_kind("class C { get constructor() {} }"),
        ParseErrorKind::ConstructorMayNotBeAnAccessor
    );
    assert_eq!(
        class_kind("class C { set constructor(a) {} }"),
        ParseErrorKind::ConstructorMayNotBeAnAccessor
    );
    assert!(parse_script("class C { static get constructor() {} }").is_ok());
}

#[test]
fn a_static_method_may_not_be_named_prototype_and_a_prototype_method_may() {

    for source in [
        "class C { static prototype() {} }",
        "class C { static \"prototype\"() {} }",
        "class C { static get prototype() {} }",
        "class C { static set prototype(a) {} }",
    ] {
        assert_eq!(class_kind(source), ParseErrorKind::StaticPrototype, "{source:?}");
    }
    assert!(parse_script("class C { prototype() {} }").is_ok());
    assert!(parse_script("class C { static [\"prototype\"]() {} }").is_ok());
}

#[test]
fn super_property_is_legal_in_any_method_and_super_call_only_in_a_derived_constructor() {
    for source in [
        "class C { m() { super.a; } }",
        "class C { m() { super[a]; } }",
        "class C { m() { super.a(); } }",
        "class C { m() { super.a = 1; } }",
        "class C { m() { new super.a; } }",
        "class C { static m() { super.a; } }",
        "class C { get a() { super.b; } }",
        "class C extends D { constructor() { super.a; } }",
        "({ m() { super.a; } });",
    ] {
        assert!(parse_script(source).is_ok(), "{source:?}");
    }
    assert!(parse_script("class C extends D { constructor() { super(); } }").is_ok());

    assert_eq!(
        class_kind("class C { constructor() { super(); } }"),
        ParseErrorKind::SuperCallOutsideDerivedConstructor
    );
    assert_eq!(
        class_kind("class C extends D { m() { super(); } }"),
        ParseErrorKind::SuperCallOutsideDerivedConstructor
    );
    assert_eq!(
        class_kind("({ m() { super(); } });"),
        ParseErrorKind::SuperCallOutsideDerivedConstructor
    );

    assert_eq!(class_kind("super.a;"), ParseErrorKind::SuperPropertyOutsideMethod);
    assert_eq!(
        class_kind("function f() { super.a; }"),
        ParseErrorKind::SuperPropertyOutsideMethod
    );
    assert_eq!(
        class_kind("super();"),
        ParseErrorKind::SuperCallOutsideDerivedConstructor
    );

    assert_eq!(
        class_kind("class C { m() { super; } }"),
        ParseErrorKind::SuperPropertyOutsideMethod
    );
    assert_eq!(
        class_kind("class C { m() { super`x`; } }"),
        ParseErrorKind::SuperPropertyOutsideMethod
    );
}

#[test]
fn a_function_stops_super_and_an_arrow_does_not() {

    assert_eq!(
        class_kind("class C { m() { function f() { super.a; } } }"),
        ParseErrorKind::SuperPropertyOutsideMethod
    );
    assert_eq!(
        class_kind("class C extends D { constructor() { function f() { super(); } } }"),
        ParseErrorKind::SuperCallOutsideDerivedConstructor
    );

    assert!(parse_script("class C { m() { () => super.a; } }").is_ok());
    assert!(parse_script("class C extends D { constructor() { () => super(); } }").is_ok());
    assert!(parse_script("({ m() { () => super.a; } });").is_ok());

    assert_eq!(
        class_kind("class C { constructor() { () => super(); } }"),
        ParseErrorKind::SuperCallOutsideDerivedConstructor
    );

    assert!(parse_script("class C { m() { ({ n() { super.a; } }); } }").is_ok());
    assert_eq!(
        class_kind("class C extends D { constructor() { ({ n() { super(); } }); } }"),
        ParseErrorKind::SuperCallOutsideDerivedConstructor
    );
}

#[test]
fn no_class_however_truncated_can_panic() {
    let long_body = format!("class C {{ {}}}", "m() {} ".repeat(10_000));
    let deep_heritage = format!(
        "{}D{};",
        "class C extends ".repeat(1000),
        " {}".repeat(1000)
    );
    let deep_bodies = format!("{}{}", "class C { m() { ".repeat(1000), "} }".repeat(1000));
    let cases = [
        "class".to_string(),
        "class C".to_string(),
        "class C {".to_string(),
        "class C extends".to_string(),
        "class C extends D".to_string(),
        "class C { m".to_string(),
        "class C { m(".to_string(),
        "class C { m() {".to_string(),
        "class C { static".to_string(),
        "class C { get".to_string(),
        "class C { a =".to_string(),
        "class C { a = 1".to_string(),
        "class C { static {".to_string(),
        "class C { static { a".to_string(),
        "class C { #".to_string(),
        "class C { #a".to_string(),
        "class C { #a; m() { this.#".to_string(),
        "class C { #a; m() { #a in".to_string(),
        "#a".to_string(),
        "super".to_string(),
        "class C { m() { super".to_string(),
        long_body.clone(),
        deep_heritage.clone(),
        deep_bodies.clone(),
    ];
    for source in &cases {
        let _ = parse_script(source);
    }

    assert!(parse_script(&long_body).is_ok());

    assert_eq!(class_kind(&deep_heritage), ParseErrorKind::TooDeeplyNested);
    assert_eq!(class_kind(&deep_bodies), ParseErrorKind::TooDeeplyNested);
}

fn class_element_kind(source: &str) -> ParseErrorKind {
    script_error(source).kind
}

#[test]
fn a_bigint_names_a_class_element_and_is_never_one_of_the_reserved_names() {

    assert_eq!(
        shape("class C { 1n(){} }"),
        "(class C - [(1n (fn <anon> [] {}))])"
    );
    assert_eq!(
        shape("class C { get 1n(){} }"),
        "(class C - [(get 1n (fn <anon> [] {}))])"
    );
    assert_eq!(
        shape("class C { async 1n(){} }"),
        "(class C - [(1n (async-fn <anon> [] {}))])"
    );
    assert_eq!(shape("class C { 1n = 2 }"), "(class C - [(field 1n 2)])");

    assert_eq!(
        shape("class C { constructor(){} 1n(){} }"),
        "(class C - [(constructor (fn <anon> [] {})) (1n (fn <anon> [] {}))])"
    );
    assert_eq!(
        shape("class C { static 1n(){} }"),
        "(class C - [(static 1n (fn <anon> [] {}))])"
    );
}
#[test]
fn static_is_a_method_name_until_something_a_method_may_begin_with_follows_it() {
    assert_eq!(
        statements("class C { static() {} }"),
        ["(class C - [(static (fn <anon> [] {}))])"]
    );
    assert_eq!(
        statements("class C { static static() {} }"),
        ["(class C - [(static static (fn <anon> [] {}))])"]
    );
    assert_eq!(
        statements("class C { static get static() {} }"),
        ["(class C - [(static get static (fn <anon> [] {}))])"]
    );

    assert!(parse_script("class C { if() {} get() {} get get() {} }").is_ok());
}

#[test]
fn a_private_name_may_name_any_element_a_public_one_may() {
    assert_eq!(
        statements("class C { #a; }"),
        ["(class C - [(field #a <none>)])"]
    );
    assert_eq!(
        statements("class C { #a = 1; }"),
        ["(class C - [(field #a 1)])"]
    );
    assert_eq!(
        statements("class C { #m() {} }"),
        ["(class C - [(#m (fn <anon> [] {}))])"]
    );
    for source in [
        "class C { static #a; }",
        "class C { static #m() {} }",
        "class C { get #a() {} }",
        "class C { set #a(v) {} }",
        "class C { *#m() {} }",
        "class C { async #m() {} }",
        "class C { async *#m() {} }",
        "class C { static async *#m() {} }",
    ] {
        assert!(parse_script(source).is_ok(), "{source:?}");
    }

    for source in ["class C { #constructor; }", "class C { #constructor() {} }"] {
        assert_eq!(
            class_element_kind(source),
            ParseErrorKind::PrivateConstructor,
            "{source:?}"
        );
    }

    for source in ["class C { # a; }", "class C { #0a; }"] {
        assert!(parse_script(source).is_err(), "{source:?}");
    }
}

#[test]
fn two_elements_may_share_a_private_name_only_as_a_getter_and_a_setter() {

    assert!(parse_script("class C { get #a() {} set #a(v) {} }").is_ok());
    assert!(parse_script("class C { set #a(v) {} get #a() {} }").is_ok());
    assert!(parse_script("class C { static get #a() {} static set #a(v) {} }").is_ok());

    for source in [
        "class C { #a; #a; }",
        "class C { get #a() {} get #a() {} }",
        "class C { get #a() {} set #a(v) {} #a; }",
        "class C { #a(){} #a; }",
        "class C { #a; static #a; }",
        "class C { static get #a() {} set #a(v) {} }",
    ] {
        assert_eq!(
            class_element_kind(source),
            ParseErrorKind::DuplicatePrivateName,
            "{source:?}"
        );
    }

    assert!(parse_script("class C { #a; #b; }").is_ok());
    assert!(parse_script("class C { #a; a; }").is_ok());
}

#[test]
fn a_private_name_is_in_scope_for_the_whole_class_that_declares_it_and_no_other() {
    assert_eq!(
        shape("(class { #a; m() { return this.#a; } })"),
        "(class <anon> - [(field #a <none>) (m (fn <anon> [] {(return (. this #a))}))])"
    );

    assert!(parse_script("class C { m() { this.#a; } #a; }").is_ok());

    assert!(
        parse_script("class C { #a; m() { return class { n() { return this.#a; } }; } }")
            .is_ok()
    );
    assert!(parse_script("class C { #a; m() { class D { n() { this.#a; } } } }").is_ok());

    assert_eq!(
        class_element_kind("class C { #a; } class D { m() { this.#a; } }"),
        ParseErrorKind::UndeclaredPrivateName
    );
    assert_eq!(
        class_element_kind("class C { m() { this.#a; } } class D { #a; }"),
        ParseErrorKind::UndeclaredPrivateName
    );
    assert_eq!(
        class_element_kind("class C { #a; } class D extends C { m() { this.#a; } }"),
        ParseErrorKind::UndeclaredPrivateName
    );

    assert_eq!(class_element_kind("this.#a;"), ParseErrorKind::UndeclaredPrivateName);
    assert_eq!(
        class_element_kind("class C { m() { this.#b; } #a; }"),
        ParseErrorKind::UndeclaredPrivateName
    );

    assert!(parse_script("class C { #a; m() { function f() { this.#a; } } }").is_ok());
    assert!(parse_script("class C { #a; m() { ({ n() { this.#a; } }); } }").is_ok());
    assert!(parse_script("class C { #a; static { this.#a; } }").is_ok());
    assert!(parse_script("class C { #a; b = this.#a; }").is_ok());
}

#[test]
fn a_private_member_is_read_like_any_other_and_deleted_like_none() {
    assert_eq!(
        shape("(class { #a; m() { return a.#a; } })"),
        "(class <anon> - [(field #a <none>) (m (fn <anon> [] {(return (. a #a))}))])"
    );

    for source in [
        "a.#a();",
        "a?.#a;",
        "a.#a`x`;",
        "({}).#a;",
        "new C().#a;",
        "this.#a = 1;",
        "this.#a++;",
        "[this.#a] = b;",
        "typeof this.#a;",
    ] {
        assert!(
            parse_script(&format!("class C {{ #a; m() {{ {source} }} }}")).is_ok(),
            "{source:?}"
        );
    }

    assert_eq!(
        class_element_kind("class C { #a; m() { super.#a; } }"),
        ParseErrorKind::PrivateNameAfterSuper
    );

    assert_eq!(
        class_element_kind("class C { #a; m() { delete this.#a; } }"),
        ParseErrorKind::DeleteOfPrivateMember
    );
    assert_eq!(
        class_element_kind("class C { #a; m() { delete (this.#a); } }"),
        ParseErrorKind::DeleteOfPrivateMember
    );
    assert_eq!(
        class_element_kind("class C { #a; m() { delete a?.#a; } }"),
        ParseErrorKind::DeleteOfPrivateMember
    );
    assert!(parse_script("class C { #a; m() { delete a.b; } }").is_ok());
}

#[test]
fn the_only_place_a_private_name_stands_alone_is_the_left_of_an_in() {
    assert_eq!(
        shape("(class { #a; m() { return #a in b; } })"),
        "(class <anon> - [(field #a <none>) (m (fn <anon> [] {(return (#in a b))}))])"
    );

    assert_eq!(
        shape("(class { #a; m() { return #a in b + c; } })"),
        "(class <anon> - [(field #a <none>) (m (fn <anon> [] {(return (#in a (+ b c)))}))])"
    );
    assert_eq!(
        shape("(class { #a; m() { return #a in b in c; } })"),
        "(class <anon> - [(field #a <none>) (m (fn <anon> [] {(return (in (#in a b) c))}))])"
    );
    assert_eq!(
        shape("(class { #a; m() { return #a in b == c; } })"),
        "(class <anon> - [(field #a <none>) (m (fn <anon> [] {(return (== (#in a b) c))}))])"
    );
    assert!(parse_script("class C { #a; m() { x = #a in b; } }").is_ok());
    assert!(parse_script("class C { #a; m() { (#a in b); } }").is_ok());

    assert!(parse_script("class C { #a; m() { #a; } }").is_err());
    assert!(parse_script("class C { #a; m() { #a == b; } }").is_err());

    assert!(parse_script("class C { #a; m() { for (#a in b;;); } }").is_err());

    assert_eq!(class_element_kind("#a in b;"), ParseErrorKind::UndeclaredPrivateName);
    assert!(parse_script("class C { #a in b; }").is_err());
}

#[test]
fn a_field_is_a_name_an_optional_initialiser_and_a_semicolon_that_may_be_inserted() {
    assert_eq!(
        statements("class C { a; }"),
        ["(class C - [(field a <none>)])"]
    );
    assert_eq!(
        statements("class C { a = 1; }"),
        ["(class C - [(field a 1)])"]
    );
    assert_eq!(
        statements("class C { static a = 1; }"),
        ["(class C - [(static field a 1)])"]
    );
    assert_eq!(
        statements("class C { a; b; }"),
        ["(class C - [(field a <none>) (field b <none>)])"]
    );

    assert_eq!(
        statements("class C { [a] = 1; 1 = 2; \"s\" = 3; if = 4; }"),
        ["(class C - [(field [a] 1) (field n1 2) (field s\"s\" 3) (field if 4)])"]
    );

    assert_eq!(
        statements("class C { a }"),
        ["(class C - [(field a <none>)])"]
    );
    assert_eq!(
        statements("class C { a\nb }"),
        ["(class C - [(field a <none>) (field b <none>)])"]
    );
    assert_eq!(
        statements("class C { a = 1\nb = 2 }"),
        ["(class C - [(field a 1) (field b 2)])"]
    );

    for source in ["class C { a = 1 b = 2 }", "class C { a m() {} }"] {
        assert!(parse_script(source).is_err(), "{source:?}");
    }

    assert!(parse_script("class C { a = 1, b = 2; }").is_err());

    assert!(parse_script("class C { a; static b; static {} m() {} ; }").is_ok());
}

#[test]
fn a_word_that_modifies_a_method_is_a_field_name_when_nothing_follows_it() {

    for source in [
        "class C { static; }",
        "class C { static = 1; }",
        "class C { static static; }",
        "class C { static static = 1; }",
        "class C { get; }",
        "class C { get = 1; }",
        "class C { async; }",
        "class C { async = 1; }",
        "class C { static async; }",
        "class C { static get; }",
    ] {
        assert!(parse_script(source).is_ok(), "{source:?}");
    }
    assert_eq!(
        statements("class C { static static = 1; }"),
        ["(class C - [(static field static 1)])"]
    );

    assert_eq!(
        statements("class C { static\na; }"),
        ["(class C - [(static field a <none>)])"]
    );

    assert_eq!(
        statements("class C { async\na; }"),
        ["(class C - [(field async <none>) (field a <none>)])"]
    );

    for source in [
        "class C { *a = 1; }",
        "class C { async a = 1; }",
        "class C { get a = 1; }",
        "class C { get a; }",
        "class C { async a; }",
        "class C { static *; }",
    ] {
        assert!(parse_script(source).is_err(), "{source:?}");
    }
}

#[test]
fn a_field_may_not_be_called_constructor_and_a_static_one_may_not_be_called_prototype() {

    for source in [
        "class C { constructor; }",
        "class C { constructor = 1; }",
        "class C { static constructor; }",
    ] {
        assert_eq!(
            class_element_kind(source),
            ParseErrorKind::ConstructorAsFieldName,
            "{source:?}"
        );
    }
    assert_eq!(
        class_element_kind("class C { static prototype; }"),
        ParseErrorKind::StaticPrototype
    );

    assert!(parse_script("class C { prototype; }").is_ok());

    assert!(parse_script("class C { static [\"prototype\"]; }").is_ok());

    assert!(parse_script("class C { constructor() {} }").is_ok());
}

#[test]
fn an_initialiser_has_a_home_object_but_no_arguments_and_no_super_call() {

    for source in [
        "class C extends D { a = super.b; }",
        "class C { a = super.b(); }",
        "class C { a = new.target; }",
        "class C { a = this; }",
        "class C { a = () => super.b; }",
        "class C { a = class { b = super.c; }; }",
    ] {
        assert!(parse_script(source).is_ok(), "{source:?}");
    }

    assert_eq!(
        class_element_kind("class C extends D { a = super(); }"),
        ParseErrorKind::SuperCallOutsideDerivedConstructor
    );

    assert_eq!(
        class_element_kind("class C { a = arguments; }"),
        ParseErrorKind::ArgumentsInClassInitializer
    );
    assert_eq!(
        class_element_kind("class C { a = () => arguments; }"),
        ParseErrorKind::ArgumentsInClassInitializer
    );
    assert_eq!(
        class_element_kind("class C { a = (arguments) => 1; }"),
        ParseErrorKind::ArgumentsInClassInitializer
    );
    assert!(parse_script("class C { a = function () { arguments; }; }").is_ok());
    assert!(parse_script("class C { a = class { m() { arguments; } }; }").is_ok());

    assert!(parse_script("class C { a = b.arguments; }").is_ok());
    assert!(parse_script("class C { a = ({arguments: 1}); }").is_ok());
}

#[test]
fn an_initialiser_drops_both_suspension_parameters_against_the_printed_grammar() {

    assert!(parse_script("function* g() { class C { a = yield; } }").is_err());
    assert_eq!(
        statements("async function f() { class C { a = await; } }"),
        ["(async-fn f [] {(class C - [(field a await)])})"]
    );

    assert!(parse_script("function* g() { class C { [yield] = 1; } }").is_ok());

    assert_eq!(
        class_element_kind("class C { a = yield; }"),
        ParseErrorKind::StrictReservedWord
    );
}

#[test]
fn a_static_block_is_a_statement_list_that_starts_every_walk_over() {
    assert_eq!(
        statements("class C { static {} }"),
        ["(class C - [(static-block {})])"]
    );
    assert_eq!(
        statements("class C { static { a; } }"),
        ["(class C - [(static-block {a})])"]
    );
    assert!(parse_script("class C { static {} static {} }").is_ok());

    assert!(parse_script("class C { static\n{} }").is_ok());

    assert_eq!(
        class_element_kind("class C { static { return; } }"),
        ParseErrorKind::ReturnOutsideFunction
    );

    assert!(parse_script("class C { static { function f() { return; } } }").is_ok());

    assert_eq!(
        class_element_kind("class C { static { break; } }"),
        ParseErrorKind::BreakOutsideLoop
    );
    assert_eq!(
        class_element_kind("class C { static { continue; } }"),
        ParseErrorKind::ContinueOutsideLoop
    );
    assert!(parse_script("class C { static { l: break l; } }").is_ok());
    assert!(parse_script("class C { static { for (;;) break; } }").is_ok());

    assert!(parse_script("class C { static { var a; let a; } }").is_err());
    assert!(parse_script("class C { static { let a; { let a; } } }").is_ok());

    assert!(parse_script("class C { static { super.a; this; new.target; } }").is_ok());
    assert_eq!(
        class_element_kind("class C extends D { static { super(); } }"),
        ParseErrorKind::SuperCallOutsideDerivedConstructor
    );
    assert_eq!(
        class_element_kind("class C { static { arguments; } }"),
        ParseErrorKind::ArgumentsInClassInitializer
    );
    assert_eq!(
        class_element_kind("class C { static { () => arguments; } }"),
        ParseErrorKind::ArgumentsInClassInitializer
    );
    assert!(parse_script("class C { static { function f() { arguments; } } }").is_ok());
}

#[test]
fn a_static_block_makes_await_a_keyword_only_so_that_it_can_forbid_it() {

    assert_eq!(
        class_element_kind("class C { static { await a; } }"),
        ParseErrorKind::AwaitInStaticBlock
    );
    assert!(parse_script("class C { static { await; } }").is_err());
    assert!(parse_script("async function f() { class C { static { await a; } } }").is_err());

    assert!(parse_script("class C { static { async function f() { await a; } } }").is_ok());
    assert!(parse_script("class C { static { ({ async m() { await a; } }); } }").is_ok());

    assert!(parse_script("class C { static { () => await a; } }").is_err());

    assert!(parse_script("class C { static { class D { a = await; } } }").is_ok());

    assert_eq!(
        class_element_kind("class C { static { yield; } }"),
        ParseErrorKind::StrictReservedWord
    );
    assert_eq!(
        class_element_kind("function* g() { class C { static { yield; } } }"),
        ParseErrorKind::StrictReservedWord,
        "the parameter is dropped, so this is the name being refused and not an operator"
    );
}

fn control_statements(source: &str) -> Vec<String> {
    let script = parse_script(source)
        .unwrap_or_else(|err| panic!("{source:?} should parse, got {:?}", err.kind));
    script.body.iter().map(render_statement).collect()
}

fn control_script_error(source: &str) -> ParseError {
    match parse_script(source) {
        Err(err) => err,
        Ok(script) => panic!("{source:?} should not parse, got {script:?}"),
    }
}

#[test]
fn an_else_belongs_to_the_nearest_if_that_has_none() {
    assert_eq!(control_statements("if (a) b;"), ["(if a b)"]);
    assert_eq!(control_statements("if (a) b; else c;"), ["(if a b c)"]);
    assert_eq!(control_statements("if (a) {} else {}"), ["(if a {} {})"]);

    assert_eq!(
        control_statements("if (a) if (b) c; else d;"),
        ["(if a (if b c d))"]
    );
    assert_eq!(
        control_statements("if (a) { if (b) c; } else d;"),
        ["(if a {(if b c)} d)"]
    );
    assert_eq!(
        control_statements("if (a) b; else if (c) d; else e;"),
        ["(if a b (if c d e))"]
    );
    assert_eq!(
        parse_script("if (a) b;").map(|s| s.body[0].span).ok(),
        Some(Span::new(0, 9))
    );

    assert_eq!(control_statements("if (a, b) c;"), ["(if (, a b) c)"]);
    assert_eq!(control_statements("if (a = 1) c;"), ["(if (= a 1) c)"]);
    for source in ["if a b;", "if (a b;", "if (a);else", "if () a;", "else a;"] {
        assert!(parse_script(source).is_err(), "{source:?}");
    }

    assert_eq!(control_statements("if (a);"), ["(if a <empty>)"]);
}

#[test]
fn a_body_is_a_statement_so_var_may_stand_there_and_let_may_not() {

    assert_eq!(control_statements("if (a) var b = 1;"), ["(if a (var b=1))"]);
    assert_eq!(control_statements("while (a) var b = 1;"), ["(while a (var b=1))"]);
    assert!(parse_script("if (a) let b = 1;").is_err());
    assert!(parse_script("if (a) const b = 1;").is_err());
    assert!(parse_script("while (a) let b = 1;").is_err());

    assert_eq!(control_statements("if (a) { let b = 1; }"), ["(if a {(let b=1)})"]);
    assert_eq!(control_statements("{ const b = 1; }"), ["{(const b=1)}"]);

    assert_eq!(control_statements("if (a) let;"), ["(if a let)"]);
}

#[test]
fn both_loops_parse_and_the_do_while_semicolon_is_simply_optional() {
    assert_eq!(control_statements("while (a) b;"), ["(while a b)"]);
    assert_eq!(control_statements("while (a) {}"), ["(while a {})"]);
    assert_eq!(control_statements("do a; while (b);"), ["(do a b)"]);
    assert_eq!(control_statements("do { a; } while (b);"), ["(do {a} b)"]);

    assert_eq!(control_statements("do a; while (b) c;"), ["(do a b)", "c"]);
    assert_eq!(control_statements("do a; while (b)"), ["(do a b)"]);
    assert_eq!(control_statements("do a; while (b)\nc;"), ["(do a b)", "c"]);

    assert_eq!(
        control_script_error("a b").kind,
        ParseErrorKind::Unexpected {
            expected: "`;`",
            found: TokenKind::Identifier {
                contains_escape: false
            },
        }
    );

    assert!(parse_script("while (a)").is_err());
    assert!(parse_script("if (a)").is_err());
    assert!(parse_script("do while (a);").is_err());

    assert_eq!(control_statements("while (a);"), ["(while a <empty>)"]);
}

#[test]
fn break_and_continue_must_be_inside_a_loop() {

    assert_eq!(control_statements("while (a) break;"), ["(while a break)"]);
    assert_eq!(control_statements("while (a) continue;"), ["(while a continue)"]);
    assert_eq!(control_statements("do break; while (a);"), ["(do break a)"]);
    assert_eq!(
        control_statements("while (a) { if (b) break; }"),
        ["(while a {(if b break)})"]
    );

    assert_eq!(
        control_statements("while (a) { while (b) break; } "),
        ["(while a {(while b break)})"]
    );
    assert_eq!(
        control_script_error("while (a) {} break;").kind,
        ParseErrorKind::BreakOutsideLoop
    );
    assert_eq!(
        control_script_error("break;").kind,
        ParseErrorKind::BreakOutsideLoop
    );
    assert_eq!(
        control_script_error("continue;").kind,
        ParseErrorKind::ContinueOutsideLoop
    );
    assert_eq!(
        control_script_error("{ break; }").kind,
        ParseErrorKind::BreakOutsideLoop
    );
    assert_eq!(
        control_script_error("if (a) continue;").kind,
        ParseErrorKind::ContinueOutsideLoop
    );
    assert_eq!(control_script_error("break;").span, Span::new(0, 5));

    assert!(parse_script("while (a) { @ }").is_err());
    assert_eq!(
        control_script_error("break;").kind,
        ParseErrorKind::BreakOutsideLoop
    );

    assert_eq!(control_statements("while (a) { break }"), ["(while a {break})"]);
    assert_eq!(
        control_statements("while (a) { break\nb; }"),
        ["(while a {break b})"]
    );
}

#[test]
fn a_line_break_after_throw_leaves_a_statement_with_no_derivation() {
    assert_eq!(control_statements("throw a;"), ["(throw a)"]);
    assert_eq!(control_statements("throw new Error();"), ["(throw (new Error []))"]);
    assert_eq!(control_statements("throw a, b;"), ["(throw (, a b))"]);
    assert_eq!(control_statements("throw a"), ["(throw a)"], "…and ASI ends it");

    assert_eq!(
        control_script_error("throw\na;").kind,
        ParseErrorKind::NewlineAfterThrow
    );
    assert_eq!(control_script_error("throw\n a;").span, Span::new(7, 8));
    assert_eq!(
        control_script_error("throw /* \n */ a;").kind,
        ParseErrorKind::NewlineAfterThrow,
        "§12.4: a comment containing a newline is a line terminator"
    );
    assert_eq!(control_statements("throw /* no break */ a;"), ["(throw a)"]);
    assert!(parse_script("throw;").is_err());
    assert!(parse_script("throw").is_err());
}

#[test]
fn no_control_flow_however_odd_can_panic() {
    let cases = [
        "if".to_string(),
        "if (".to_string(),
        "while".to_string(),
        "do".to_string(),
        "do a".to_string(),
        "throw".to_string(),
        "break".to_string(),
        "if (a) ".repeat(1000),
        "while (a) ".repeat(1000),
        "do ".repeat(1000),
        "if (a) b; else ".repeat(1000),
        "{ break; }".repeat(1000),
    ];
    for source in &cases {
        let _ = parse_script(source);
    }

    assert_eq!(
        control_script_error(&"if (a) ".repeat(1000)).kind,
        ParseErrorKind::TooDeeplyNested
    );
    assert_eq!(
        control_script_error(&"while (a) ".repeat(1000)).kind,
        ParseErrorKind::TooDeeplyNested
    );
}

fn declaration_statements(source: &str) -> Vec<String> {
    let script = parse_script(source)
        .unwrap_or_else(|err| panic!("{source:?} should parse, got {:?}", err.kind));
    script.body.iter().map(render_statement).collect()
}

fn declaration_script_error(source: &str) -> ParseError {
    match parse_script(source) {
        Err(err) => err,
        Ok(script) => panic!("{source:?} should not parse, got {script:?}"),
    }
}

#[test]
fn all_three_keywords_bind_names_with_or_without_initialisers() {
    assert_eq!(declaration_statements("var a;"), ["(var a)"]);
    assert_eq!(declaration_statements("var a = 1;"), ["(var a=1)"]);
    assert_eq!(declaration_statements("let a;"), ["(let a)"]);
    assert_eq!(declaration_statements("let a = 1;"), ["(let a=1)"]);
    assert_eq!(declaration_statements("const a = 1;"), ["(const a=1)"]);
    assert_eq!(declaration_statements("var a, b, c;"), ["(var a b c)"]);
    assert_eq!(declaration_statements("var a = 1, b, c = 3;"), ["(var a=1 b c=3)"]);

    assert_eq!(declaration_statements("var a = 1, b = 2;"), ["(var a=1 b=2)"]);
    assert_eq!(declaration_statements("var a = (1, 2);"), ["(var a=(, 1 2))"]);

    assert_eq!(declaration_statements("var a = b ? c : d;"), ["(var a=(? b c d))"]);
    assert_eq!(declaration_statements("var a = b = c;"), ["(var a=(= b c))"]);

    assert_eq!(
        declaration_statements("var a = 1\nvar b = 2"),
        ["(var a=1)", "(var b=2)"]
    );
    assert_eq!(declaration_statements("{ var a = 1 }"), ["{(var a=1)}"]);

    assert_eq!(declaration_statements("var async = 1;"), ["(var async=1)"]);
    assert_eq!(declaration_statements("var of = 1;"), ["(var of=1)"]);
    assert_eq!(
        declaration_statements("var let = 1;"),
        ["(var let=1)"],
        "…including `let`, under `var`"
    );

    assert_eq!(
        declaration_script_error("var if = 1;").kind,
        ParseErrorKind::Unexpected {
            expected: "a binding name",
            found: TokenKind::Keyword(praxis::lexer::ReservedWord::If),
        }
    );
    assert!(parse_script("var 1 = 2;").is_err());
    assert!(parse_script("var;").is_err());
}

#[test]
fn the_three_early_errors_of_a_lexical_declaration() {

    assert_eq!(
        declaration_script_error("const a;").kind,
        ParseErrorKind::ConstWithoutInitializer
    );
    assert_eq!(
        declaration_script_error("const a, b = 1;").kind,
        ParseErrorKind::ConstWithoutInitializer
    );
    assert_eq!(declaration_script_error("const a;").span, Span::new(6, 7));
    assert_eq!(declaration_statements("const a = 1, b = 2;"), ["(const a=1 b=2)"]);

    assert_eq!(declaration_statements("var a;"), ["(var a)"]);
    assert_eq!(declaration_statements("let a;"), ["(let a)"]);

    assert_eq!(
        declaration_script_error("let let = 1;").kind,
        ParseErrorKind::LetAsLexicalBindingName
    );
    assert_eq!(
        declaration_script_error("const let = 1;").kind,
        ParseErrorKind::LetAsLexicalBindingName
    );
    assert_eq!(
        declaration_script_error("let a, let = 1;").kind,
        ParseErrorKind::LetAsLexicalBindingName
    );

    assert_eq!(
        declaration_script_error(r"let let = 1;").kind,
        ParseErrorKind::LetAsLexicalBindingName
    );

    assert_eq!(declaration_statements("var let = 1;"), ["(var let=1)"]);

    assert_eq!(
        declaration_script_error("let a, a;").kind,
        ParseErrorKind::DuplicateLexicalBinding
    );
    assert_eq!(
        declaration_script_error("const a = 1, a = 2;").kind,
        ParseErrorKind::DuplicateLexicalBinding
    );
    assert_eq!(declaration_script_error("let a, b, a;").span, Span::new(10, 11));

    assert_eq!(declaration_statements("var a, a;"), ["(var a a)"]);
    assert_eq!(
        declaration_script_error(r"let a, a;").kind,
        ParseErrorKind::DuplicateLexicalBinding
    );
    assert_eq!(declaration_statements("let a, b;"), ["(let a b)"]);
}

#[test]
fn no_declaration_however_odd_can_panic() {
    let cases = [
        "var".to_string(),
        "let".to_string(),
        "const".to_string(),
        "var a,".to_string(),
        "let a =".to_string(),
        "var ".to_string() + &"a, ".repeat(10_000) + "b;",
        "let ".to_string() + &"a".repeat(10_000) + " = 1;",
        "{".repeat(100) + "var a;" + &"}".repeat(100),
    ];
    for source in &cases {
        let _ = parse_script(source);
    }

    let many = "var ".to_string()
        + &(0..5000)
            .map(|n| format!("a{n}"))
            .collect::<Vec<_>>()
            .join(", ")
        + ";";
    assert!(parse_script(&many).is_ok());
}

#[test]
fn every_parse_error_says_what_it_wanted_and_what_it_found() {

    assert_eq!(
        error("(1").kind.message(),
        "expected `)`, found end of input"
    );
    assert_eq!(
        error("(1 2)").kind.message(),
        "expected `)`, found a number"
    );
    assert_eq!(
        error("var").kind.message(),
        "expected an expression, found `var`"
    );
    assert_eq!(
        error("1 2").kind.message(),
        "expected end of input, found a number"
    );
    assert_eq!(
        error("1 x").kind.message(),
        "expected end of input, found an identifier"
    );
    assert_eq!(
        error("1 )").kind.message(),
        "expected end of input, found `)`"
    );
    assert_eq!(
        error("1 'a'").kind.message(),
        "expected end of input, found a string"
    );

    assert_eq!(
        error("1 ]").kind.message(),
        "expected end of input, found `]`"
    );
    assert_eq!(
        error("1 #a").kind.message(),
        "expected end of input, found a private name"
    );
    assert_eq!(
        error("1 2n").kind.message(),
        "expected end of input, found a bigint literal"
    );
    assert_eq!(
        error("1 ]").kind.message(),
        "expected end of input, found `]`"
    );

    assert_eq!(
        ParseErrorKind::Unexpected {
            expected: "`)`",
            found: TokenKind::RegExp,
        }
        .message(),
        "expected `)`, found a regular expression"
    );
    assert_eq!(
        error("'abc").kind.message(),
        "unterminated string literal",
        "a lexical failure keeps its own words"
    );
    assert_eq!(
        ParseErrorKind::TooDeeplyNested.message(),
        "expression nests too deeply"
    );
}

fn export_kind(source: &str) -> ParseErrorKind {
    match parse_module(source) {
        Err(err) => err.kind,
        Ok(module) => panic!("{source:?} should not parse, got {module:?}"),
    }
}

fn export_ok(source: &str) -> bool {
    parse_module(source).is_ok()
}

#[test]
fn a_re_export_names_the_other_modules_names_and_binds_nothing_here() {
    for source in [
        "export * from \"a\";",
        "export * as a from \"b\";",
        "export * as \"a\" from \"b\";",
        "export * as default from \"b\";",
        "export {} from \"a\";",
        "export {a} from \"b\";",
        "export {a as b} from \"c\";",
        "export {a as \"b\"} from \"c\";",
        "export {\"a\" as b} from \"c\";",
        "export {\"a\"} from \"b\";",
        "export {a,} from \"b\";",
        "export {default} from \"a\";",
        "export {a as default} from \"b\";",
        "export * from \"a\" with { type: \"json\" };",
    ] {
        assert!(export_ok(source), "{source:?}");
    }

    assert!(export_ok("export {a} from \"b\";"));
    assert_eq!(export_kind("export {a};"), ParseErrorKind::UndeclaredExportedName);

    for source in ["export *;", "export * as a;", "export from \"a\";"] {
        assert!(!export_ok(source), "{source:?}");
    }
}

#[test]
fn a_named_export_without_from_names_something_this_module_declares() {
    for source in [
        "var a; export {a};",
        "let a; export {a};",
        "function a() {} export {a};",
        "class a {} export {a};",
        "import a from \"b\"; export {a};",
        "var a; export {a as b};",
        "var a; export {a as \"b\"};",
        "var a; export {a,};",
        "export {};",
    ] {
        assert!(export_ok(source), "{source:?}");
    }

    assert!(export_ok("export {a}; var a;"));

    assert_eq!(
        export_kind("var a; export {\"a\"};"),
        ParseErrorKind::UndeclaredExportedName
    );

    assert!(!export_ok("export {if};"));
    assert!(export_ok("export {if as a} from \"b\";"));
}

#[test]
fn every_declaration_form_is_the_declaration_it_would_have_been() {
    for source in [
        "export var a;",
        "export var a = 1;",
        "export var a, b;",
        "export let a;",
        "export let a = 1;",
        "export const a = 1;",
        "export function f() {}",
        "export function* f() {}",
        "export async function f() {}",
        "export async function* f() {}",
        "export class C {}",
        "export class C extends D {}",
    ] {
        assert!(export_ok(source), "{source:?}");
    }

    assert_eq!(
        export_kind("export const a;"),
        ParseErrorKind::ConstWithoutInitializer
    );
    assert!(!export_ok("export function() {}"));
    assert!(!export_ok("export class {}"));

    assert_eq!(
        export_kind("export var a; let a;"),
        ParseErrorKind::ConflictingVarAndLexicalDeclaration
    );
    assert_eq!(
        export_kind("export function f() {} let f;"),
        ParseErrorKind::DuplicateLexicalBinding
    );

    for source in ["export a;", "export 1;", "export;", "export"] {
        assert!(!export_ok(source), "{source:?}");
    }
}

#[test]
fn export_default_is_the_one_place_a_declaration_may_be_anonymous() {
    for source in [
        "export default function () {}",
        "export default class {}",
        "export default function* () {}",
        "export default async function () {}",
        "export default async function* () {}",
    ] {
        assert!(export_ok(source), "{source:?}");
    }

    assert!(export_ok("export default function f() {} f;"));

    for source in [
        "export default function f() {} let f;",
        "export default function* f() {} let f;",
        "export default async function f() {} let f;",
        "export default async function* f() {} let f;",
        "export default class C {} let C;",
    ] {
        assert_eq!(
            export_kind(source),
            ParseErrorKind::DuplicateLexicalBinding,
            "{source:?}"
        );
    }

    assert!(export_ok("export default class C {}"));
    assert!(export_ok("export default 1;"));
    assert!(export_ok("export default a = 1;"));
    assert!(export_ok("export default () => 1;"));
    assert!(export_ok("export default (1, 2);"));

    assert!(!export_ok("export default a, b;"));

    assert!(export_ok("export default await 1;"));

    for source in [
        "export default;",
        "export default var a;",
        "export default let a = 1;",
    ] {
        assert!(!export_ok(source), "{source:?}");
    }
}

#[test]
fn an_exported_name_may_be_written_once_and_default_is_one_of_them() {
    for source in [
        "var a; export {a}; export {a};",
        "var a, b; export {a as c, b as c};",
        "export var a; export var a;",
        "export default 1; export default 2;",
        "export default class C {} export default 1;",
        "export default 1; export {default} from \"a\";",
    ] {
        assert_eq!(
            export_kind(source),
            ParseErrorKind::DuplicateExportedName,
            "{source:?}"
        );
    }

    for source in [
        "export let a = 1; export let a = 2;",
        "export function f() {} export function f() {}",
        "export class C {} export class C {}",
    ] {
        assert_eq!(
            export_kind(source),
            ParseErrorKind::DuplicateLexicalBinding,
            "{source:?}"
        );
    }

    assert!(export_ok("var a; export {a as b}; export {a};"));
    assert!(export_ok("var a; export {a}; export default 1;"));

    assert_eq!(
        export_kind("var a, b; export {a as c}; export {b as \"c\"};"),
        ParseErrorKind::DuplicateExportedName
    );

    assert!(export_ok("export * from \"a\"; export * from \"b\";"));
}

#[test]
fn an_export_is_a_module_item_and_the_contextual_words_stay_names() {
    for source in [
        "{ export var a; }",
        "if (a) export var b;",
        "function f() { export var a; }",
        "label: export var a;",
    ] {
        assert!(!export_ok(source), "{source:?}");
    }

    assert!(export_ok("var a; export {a as as};"));
    assert!(export_ok("export * as as from \"b\";"));
    assert!(export_ok("var from; export {from};"));
    assert!(export_ok("var a; export {a as default};"));
    assert!(export_ok("export {default as a} from \"b\";"));
}

#[test]
fn no_export_however_truncated_can_panic() {
    let cases = [
        "export",
        "export ",
        "export *",
        "export * as",
        "export * from",
        "export {",
        "export {a",
        "export {a as",
        "export {a} from",
        "export default",
        "export default function",
        "export default class",
        "export var",
        "export let",
    ];
    for source in &cases {
        let _ = parse_module(source);
    }
}

#[test]
fn every_primary_expression_the_grammar_reaches_today() {
    assert_eq!(parse("this").kind, ExprKind::This);
    assert_eq!(parse("null").kind, ExprKind::Null);
    assert_eq!(parse("true").kind, ExprKind::Boolean(true));
    assert_eq!(parse("false").kind, ExprKind::Boolean(false));
    assert_eq!(number(&parse("1").kind), 1.0);
    assert_eq!(number(&parse("0x10").kind), 16.0);
    assert_eq!(number(&parse("1e3").kind), 1000.0);
    assert_eq!(parse("'hi'").kind, ExprKind::String(vec![0x68, 0x69]));
    assert_eq!(parse(r#""hi""#).kind, ExprKind::String(vec![0x68, 0x69]));
    assert_eq!(parse("x").kind, ExprKind::Identifier("x".to_string()));

    assert_eq!(parse(r"x").kind, ExprKind::Identifier("x".to_string()));

    assert_eq!(parse("let").kind, ExprKind::Identifier("let".to_string()));
    assert_eq!(parse("of").kind, ExprKind::Identifier("of".to_string()));
    assert_eq!(
        parse("async").kind,
        ExprKind::Identifier("async".to_string())
    );

    assert_eq!(
        error("var").kind,
        ParseErrorKind::Unexpected {
            expected: "an expression",
            found: TokenKind::Keyword(ReservedWord::Var),
        }
    );

    assert_eq!(parse("  1  ").span, Span::new(2, 3));
    assert_eq!(parse("this").span, Span::new(0, 4));
}
#[test]
fn a_slash_at_the_start_of_an_expression_opens_a_literal() {

    assert_eq!(parse("/ab+/gi").kind, regexp("ab+", "gi"));

    assert_eq!(parse(r"/a\/[/]b/").kind, regexp(r"a\/[/]b", ""));

    assert_eq!(parse("/x/").kind, regexp("x", ""));

    assert!(matches!(parse("(/x/)").kind, ExprKind::RegExp(_)));
}
#[test]
fn a_slash_after_an_operand_divides_and_the_next_one_may_still_open_a_literal() {

    assert_eq!(shape("a / b"), "(/ a b)");
    assert_eq!(shape("a /b/ g"), "(/ (/ a b) g)");

    assert_eq!(shape("a / /b/"), "(/ a /b/)");
    assert_eq!(shape("typeof /b/"), "(typeof /b/)");
    assert_eq!(shape("1 + /b/g"), "(+ 1 /b/g)");
}
#[test]
fn every_prefix_operator_the_grammar_has_today() {

    assert_eq!(shape("-a"), "(- a)");
    assert_eq!(shape("+a"), "(+ a)");
    assert_eq!(shape("!a"), "(! a)");
    assert_eq!(shape("~a"), "(~ a)");
    assert_eq!(shape("typeof a"), "(typeof a)");
    assert_eq!(shape("void a"), "(void a)");
    assert_eq!(shape("delete a"), "(delete a)");

    assert_eq!(shape("- - a"), "(- (- a))");
    assert_eq!(shape("!!a"), "(! (! a))");
    assert_eq!(shape("typeof typeof a"), "(typeof (typeof a))");

    assert_eq!(shape("-a + b"), "(+ (- a) b)");
    assert_eq!(shape("-a * b"), "(* (- a) b)");
    assert_eq!(shape("typeof a === b"), "(=== (typeof a) b)");

    assert_eq!(parse("- a").span, Span::new(0, 3));
}
#[test]
fn the_precedence_ladder_is_the_grammars_nesting_read_as_numbers() {

    for (source, shaped) in [
        ("a || b && c", "(|| a (&& b c))"),
        ("a && b || c", "(|| (&& a b) c)"),
        ("a && b | c", "(&& a (| b c))"),
        ("a | b && c", "(&& (| a b) c)"),
        ("a | b ^ c", "(| a (^ b c))"),
        ("a ^ b | c", "(| (^ a b) c)"),
        ("a ^ b & c", "(^ a (& b c))"),
        ("a & b ^ c", "(^ (& a b) c)"),
        ("a & b == c", "(& a (== b c))"),
        ("a == b & c", "(& (== a b) c)"),
        ("a == b < c", "(== a (< b c))"),
        ("a < b == c", "(== (< a b) c)"),
        ("a < b << c", "(< a (<< b c))"),
        ("a << b < c", "(< (<< a b) c)"),
        ("a << b + c", "(<< a (+ b c))"),
        ("a + b << c", "(<< (+ a b) c)"),
        ("a + b * c", "(+ a (* b c))"),
        ("a * b + c", "(+ (* a b) c)"),
        ("a * b ** c", "(* a (** b c))"),
        ("a ** b * c", "(* (** a b) c)"),
    ] {
        assert_eq!(shape(source), shaped, "parsing {source:?}");
    }

    assert_eq!(shape("a instanceof b == c"), "(== (instanceof a b) c)");
    assert_eq!(shape("a in b == c"), "(== (in a b) c)");
    assert_eq!(shape("a + b instanceof c"), "(instanceof (+ a b) c)");

    for (source, shaped) in [
        ("a - b", "(- a b)"),
        ("a / b", "(/ a b)"),
        ("a % b", "(% a b)"),
        ("a >> b", "(>> a b)"),
        ("a >>> b", "(>>> a b)"),
        ("a > b", "(> a b)"),
        ("a <= b", "(<= a b)"),
        ("a >= b", "(>= a b)"),
        ("a != b", "(!= a b)"),
        ("a === b", "(=== a b)"),
        ("a !== b", "(!== a b)"),
    ] {
        assert_eq!(shape(source), shaped, "parsing {source:?}");
    }

    assert_eq!(shape("(a + b) * c"), "(* (+ a b) c)");
}
#[test]
fn everything_groups_to_the_left_except_exponentiation() {

    assert_eq!(shape("a - b - c"), "(- (- a b) c)");
    assert_eq!(shape("a / b / c"), "(/ (/ a b) c)");
    assert_eq!(shape("a < b < c"), "(< (< a b) c)");
    assert_eq!(shape("a && b && c"), "(&& (&& a b) c)");
    assert_eq!(shape("a ?? b ?? c"), "(?? (?? a b) c)");

    assert_eq!(shape("a ** b ** c"), "(** a (** b c))");
    assert_eq!(shape("a ** b ** c ** d"), "(** a (** b (** c d)))");

    let long = vec!["1"; 5000].join(" + ");
    assert!(parse_expression(&long).is_ok());
}
#[test]
fn a_prefix_unary_may_not_be_the_left_operand_of_exponentiation() {

    for source in [
        "-a ** b",
        "+a ** b",
        "!a ** b",
        "~a ** b",
        "typeof a ** b",
        "void a ** b",
        "delete a ** b",
    ] {
        assert_eq!(
            error(source).kind,
            ParseErrorKind::ExponentiationOnUnary,
            "on {source:?}"
        );
    }

    assert_eq!(error("-a ** b").span, Span::new(0, 2));

    assert_eq!(shape("(-a) ** b"), "(** (- a) b)");
    assert_eq!(shape("-(a ** b)"), "(- (** a b))");

    assert_eq!(shape("a ** -b"), "(** a (- b))");
    assert_eq!(shape("a ** typeof b"), "(** a (typeof b))");

    assert_eq!(shape("-a * b"), "(* (- a) b)");
    assert_eq!(shape("-a + b"), "(+ (- a) b)");
}
#[test]
fn coalescing_may_not_be_mixed_with_the_boolean_operators_without_parentheses() {

    for source in ["a || b ?? c", "a ?? b || c", "a && b ?? c", "a ?? b && c"] {
        assert_eq!(
            error(source).kind,
            ParseErrorKind::MixedCoalesceAndLogical,
            "on {source:?}"
        );
    }

    assert_eq!(error("a || b ?? c").span, Span::new(0, 6));
    assert_eq!(error("a ?? b || c").span, Span::new(5, 11));

    assert_eq!(shape("(a || b) ?? c"), "(?? (|| a b) c)");
    assert_eq!(shape("a ?? (b || c)"), "(?? a (|| b c))");
    assert_eq!(shape("(a ?? b) || c"), "(|| (?? a b) c)");
    assert_eq!(shape("a || (b ?? c)"), "(|| a (?? b c))");

    assert_eq!(shape("a || b && c"), "(|| a (&& b c))");
    assert_eq!(shape("a && b || c"), "(|| (&& a b) c)");

    assert_eq!(shape("a ?? b ?? c"), "(?? (?? a b) c)");

    assert_eq!(shape("a ?? b + c"), "(?? a (+ b c))");
    assert_eq!(shape("a | b ?? c"), "(?? (| a b) c)");
}
#[test]
fn a_conditional_takes_an_assignment_in_each_arm_and_a_comma_in_neither() {

    assert_eq!(shape("a ? b : c"), "(? a b c)");
    assert_eq!(shape("a ? b = 1 : c = 2"), "(? a (= b 1) (= c 2))");

    assert_eq!(shape("a || b ? c : d"), "(? (|| a b) c d)");
    assert_eq!(shape("a + b ? c : d"), "(? (+ a b) c d)");

    assert_eq!(shape("a ? b : c ? d : e"), "(? a b (? c d e))");
    assert_eq!(shape("a ? b ? c : d : e"), "(? a (? b c d) e)");

    assert_eq!(
        error("a ? b, c : d").kind,
        ParseErrorKind::Unexpected {
            expected: "`:`",
            found: TokenKind::Comma,
        }
    );
    assert_eq!(shape("a ? (b, c) : d"), "(? a (, b c) d)");
    assert_eq!(
        error("a ? b").kind,
        ParseErrorKind::Unexpected {
            expected: "`:`",
            found: TokenKind::Eof,
        }
    );
    assert_eq!(parse("a ? b : c").span, Span::new(0, 9));

    assert!(!parse("a ? b : c").parenthesized);
    assert!(parse("(a ? b : c)").parenthesized);
}
#[test]
fn assignment_groups_to_the_right_and_only_targets_what_can_be_assigned_to() {

    assert_eq!(shape("a = b"), "(= a b)");
    assert_eq!(shape("a = b = c"), "(= a (= b c))");

    for (source, shaped) in [
        ("a += b", "(+= a b)"),
        ("a -= b", "(-= a b)"),
        ("a *= b", "(*= a b)"),
        ("a /= b", "(/= a b)"),
        ("a %= b", "(%= a b)"),
        ("a **= b", "(**= a b)"),
        ("a <<= b", "(<<= a b)"),
        ("a >>= b", "(>>= a b)"),
        ("a >>>= b", "(>>>= a b)"),
        ("a &= b", "(&= a b)"),
        ("a ^= b", "(^= a b)"),
        ("a |= b", "(|= a b)"),
        ("a &&= b", "(&&= a b)"),
        ("a ||= b", "(||= a b)"),
        ("a ??= b", "(??= a b)"),
    ] {
        assert_eq!(shape(source), shaped, "parsing {source:?}");
    }

    assert_eq!(shape("a = b + c"), "(= a (+ b c))");
    assert_eq!(shape("a += b ? c : d"), "(+= a (? b c d))");
    assert_eq!(shape("a = b || c"), "(= a (|| b c))");

    for source in [
        "1 = 2",
        "'a' = 2",
        "this = 1",
        "null = 1",
        "true = 1",
        "a + b = c",
        "-a = b",
        "(a, b) = 1",
        "(a ? b : c) = d",
        "a ?? b = c",
        "/x/ = 1",
        "1 += 2",
        "1 &&= 2",
    ] {
        assert_eq!(
            error(source).kind,
            ParseErrorKind::InvalidAssignmentTarget,
            "on {source:?}"
        );
    }

    assert_eq!(error("a + b = c").span, Span::new(0, 5));

    assert_eq!(shape("(a) = 1"), "(= a 1)");
    assert_eq!(shape("((a)) = 1"), "(= a 1)");
    assert!(matches!(
        parse("(a) = 1").kind,
        ExprKind::Assignment { ref target, .. } if matches!(**target, AssignmentTarget::Simple(ref t) if t.parenthesized)
    ));
    assert_eq!(parse("a = b").span, Span::new(0, 5));
    assert!(!parse("a = b").parenthesized);
    assert!(parse("(a = b)").parenthesized);

    assert!(AssignmentOperator::LogicalOr.short_circuits());
    assert!(AssignmentOperator::LogicalAnd.short_circuits());
    assert!(AssignmentOperator::NullishCoalescing.short_circuits());
    assert!(!AssignmentOperator::Assign.short_circuits());
    assert!(!AssignmentOperator::Add.short_circuits());
}
#[test]
fn the_comma_operator_is_the_loosest_thing_there_is_and_is_held_flat() {

    assert_eq!(shape("a, b"), "(, a b)");

    assert_eq!(shape("a, b, c"), "(, a b c)");
    assert_eq!(shape("a, b, c, d"), "(, a b c d)");

    assert_eq!(shape("(a, b), c"), "(, (, a b) c)");
    assert_eq!(shape("a, (b, c)"), "(, a (, b c))");

    assert_eq!(shape("a = 1, b = 2"), "(, (= a 1) (= b 2))");
    assert_eq!(shape("a ? b : c, d"), "(, (? a b c) d)");
    assert_eq!(shape("a + b, c * d"), "(, (+ a b) (* c d))");
    assert_eq!(parse("a, b").span, Span::new(0, 4));
    assert!(!parse("a, b").parenthesized);
    assert!(parse("(a, b)").parenthesized);

    let long = vec!["a"; 5000].join(", ");
    assert!(parse_expression(&long).is_ok());

    assert_eq!(
        error("a, b,").kind,
        ParseErrorKind::Unexpected {
            expected: "an expression",
            found: TokenKind::Eof,
        }
    );
}

#[test]
fn both_forms_take_a_target_or_a_binding() {
    assert_eq!(statements("for (a in b);"), ["(for-in a b <empty>)"]);
    assert_eq!(statements("for (a of b);"), ["(for-of a b <empty>)"]);
    assert_eq!(
        statements("for (var a in b);"),
        ["(for-in (var a) b <empty>)"]
    );
    assert_eq!(
        statements("for (var a of b);"),
        ["(for-of (var a) b <empty>)"]
    );
    assert_eq!(
        statements("for (let a in b);"),
        ["(for-in (let a) b <empty>)"]
    );
    assert_eq!(
        statements("for (let a of b);"),
        ["(for-of (let a) b <empty>)"]
    );
    assert_eq!(
        statements("for (const a in b);"),
        ["(for-in (const a) b <empty>)"]
    );
    assert_eq!(
        statements("for (const a of b) c;"),
        ["(for-of (const a) b c)"]
    );

    assert_eq!(
        statements("for (a.b in c);"),
        ["(for-in (. a b) c <empty>)"]
    );
    assert_eq!(
        statements("for (a[b] of c);"),
        ["(for-of ([] a b) c <empty>)"]
    );
    assert_eq!(statements("for ((a) in b);"), ["(for-in a b <empty>)"]);
    assert_eq!(statements("for (a in b) { c; }"), ["(for-in a b {c})"]);
    for source in [
        "for (a in);",
        "for (a of);",
        "for (in b);",
        "for (a in b",
        "for (a of b",
    ] {
        assert!(parse_script(source).is_err(), "{source:?}");
    }
}

#[test]
fn the_iterable_of_an_in_is_an_expression_and_that_of_an_of_is_not() {

    assert_eq!(
        statements("for (a in b, c);"),
        ["(for-in a (, b c) <empty>)"]
    );
    assert!(parse_script("for (a of b, c);").is_err());
    assert!(parse_script("for (var a of b, c);").is_err());
    assert_eq!(
        statements("for (a of (b, c));"),
        ["(for-of a (, b c) <empty>)"]
    );

    assert_eq!(
        statements("for (a in b in c);"),
        ["(for-in a (in b c) <empty>)"]
    );
    assert!(parse_script("for (a of b of c);").is_err());

    assert_eq!(
        statements("for (a of b = c);"),
        ["(for-of a (= b c) <empty>)"]
    );
    assert_eq!(
        statements("for (var a in b = c);"),
        ["(for-in (var a) (= b c) <empty>)"]
    );
}

#[test]
fn a_target_that_cannot_be_assigned_to_is_refused() {

    assert_eq!(
        script_error("for (1 in b);").kind,
        ParseErrorKind::InvalidAssignmentTarget
    );
    for source in [
        "for (a + b in c);",
        "for ((a, b) in c);",
        "for (this of b);",
        "for (1 of b);",
    ] {
        assert_eq!(
            script_error(source).kind,
            ParseErrorKind::InvalidAssignmentTarget,
            "{source:?}"
        );
    }

    assert!(parse_script("for ((a) in b);").is_ok());
    assert!(parse_script("for ((a.b) of c);").is_ok());

    assert_eq!(
        script_error("for (f() in b);").kind,
        ParseErrorKind::InvalidAssignmentTarget
    );
    assert_eq!(
        script_error("f() = 1;").kind,
        ParseErrorKind::InvalidAssignmentTarget
    );
}

#[test]
fn a_for_of_target_may_not_begin_with_let_or_be_the_word_async() {

    assert_eq!(
        script_error("for (let.a of b);").kind,
        ParseErrorKind::ForOfTargetBeginsWithLet
    );

    assert_eq!(
        statements("for (let.a in b);"),
        ["(for-in (. let a) b <empty>)"]
    );
    assert_eq!(statements("for (let in b);"), ["(for-in let b <empty>)"]);

    assert_eq!(statements("for ((let) of b);"), ["(for-of let b <empty>)"]);

    assert_eq!(
        script_error("for (async of b);").kind,
        ParseErrorKind::Unexpected {
            expected: "`=>`",
            found: praxis::lexer::TokenKind::Identifier {
                contains_escape: false
            },
        }
    );

    assert_eq!(
        statements("for (async of => 1;;);"),
        ["(for (async=> [of] 1) ; ; <empty>)"]
    );
    assert_eq!(
        statements("for (async.x of b);"),
        ["(for-of (. async x) b <empty>)"]
    );
    assert_eq!(
        statements("for (async in b);"),
        ["(for-in async b <empty>)"]
    );
    assert_eq!(
        statements("for ((async) of b);"),
        ["(for-of async b <empty>)"]
    );

    assert_eq!(
        statements(r"for (\u0061sync of b);"),
        ["(for-of async b <empty>)"]
    );
    assert_eq!(
        statements(r"for (\u006cet.a of b);"),
        ["(for-of (. let a) b <empty>)"]
    );
}

#[test]
fn a_binding_is_one_name_and_the_grammar_gives_it_no_initialiser() {

    assert_eq!(
        script_error("for (var a, b in c);").kind,
        ParseErrorKind::ForInOfBindsSeveralNames
    );
    assert_eq!(
        script_error("for (let a, b of c);").kind,
        ParseErrorKind::ForInOfBindsSeveralNames
    );
    for source in [
        "for (var a = 1 of b);",
        "for (let a = 1 in b);",
        "for (let a = 1 of b);",
        "for (const a = 1 of b);",
    ] {
        assert_eq!(
            script_error(source).kind,
            ParseErrorKind::ForInOfBindingHasInitializer,
            "{source:?}"
        );
    }

    assert_eq!(
        script_error("for (var a = 1 in b);").kind,
        ParseErrorKind::ForInOfBindingHasInitializer
    );

    assert!(parse_script("for (const a of b);").is_ok());
    assert!(parse_script("for (const a in b);").is_ok());

    assert!(parse_script("for (let [a] of b);").is_ok());
    assert!(parse_script("for (var {a} in b);").is_ok());
    assert_eq!(
        script_error("for (let [a] = 1 of b);").kind,
        ParseErrorKind::ForInOfBindingHasInitializer
    );
}

#[test]
fn for_in_of_the_header_is_a_scope_between_the_enclosing_one_and_the_body() {

    for source in [
        "for (let a in b) { var a; }",
        "for (let a of b) { var a; }",
        "for (const a in b) { var a; }",
        "for (let a in b) var a;",
        "for (let a of b) { { if (x) var a; } }",
    ] {
        assert_eq!(
            script_error(source).kind,
            ParseErrorKind::ConflictingVarAndLexicalDeclaration,
            "{source:?}"
        );
    }
    assert!(parse_script("for (let a in b) { let a; }").is_ok());
    assert!(parse_script("for (var a in b) { var a; }").is_ok());
    assert!(parse_script("let a; for (let a in b);").is_ok());
    assert_eq!(
        script_error("let a; for (var a in b);").kind,
        ParseErrorKind::ConflictingVarAndLexicalDeclaration
    );

    assert!(parse_script("for (a in b) break;").is_ok());
    assert!(parse_script("for (a of b) continue;").is_ok());
    assert!(parse_script("for (a of b) { switch (x) { case 1: continue; } }").is_ok());
    assert_eq!(
        script_error("for (a in b) {} continue;").kind,
        ParseErrorKind::ContinueOutsideLoop
    );
}

#[test]
fn no_header_however_truncated_can_panic() {
    let cases = [
        "for (a in".to_string(),
        "for (a of".to_string(),
        "for (var a in".to_string(),
        "for (let a of".to_string(),
        "for (of".to_string(),
        "for (in".to_string(),
        "for (a in b) ".repeat(1000),
        "for (a of b) ".repeat(1000),
    ];
    for source in &cases {
        let _ = parse_script(source);
    }
    assert_eq!(
        script_error(&"for (a of b) ".repeat(1000)).kind,
        ParseErrorKind::TooDeeplyNested
    );
}

#[test]
fn every_one_of_the_three_header_clauses_is_optional() {
    assert_eq!(statements("for (;;) ;"), ["(for ; ; ; <empty>)"]);
    assert_eq!(statements("for (a;;);"), ["(for a ; ; <empty>)"]);
    assert_eq!(statements("for (;b;);"), ["(for ; b ; <empty>)"]);
    assert_eq!(statements("for (;;c);"), ["(for ; ; c <empty>)"]);
    assert_eq!(statements("for (a; b; c) d;"), ["(for a b c d)"]);
    assert_eq!(statements("for (;;) { a; }"), ["(for ; ; ; {a})"]);

    assert_eq!(statements("for (;;) break;"), ["(for ; ; ; break)"]);

    assert_eq!(
        statements("for (a, b; c, d; e, f);"),
        ["(for (, a b) (, c d) (, e f) <empty>)"]
    );

    for source in [
        "for () ;",
        "for (;) ;",
        "for (;;;) ;",
        "for (a;b);",
        "for a;b;c;",
        "for (a b c);",
    ] {
        assert!(parse_script(source).is_err(), "{source:?}");
    }

    assert!(parse_script("for (;;)").is_err());
}

#[test]
fn a_header_may_declare_with_any_of_the_three_keywords() {
    assert_eq!(
        statements("for (var i = 0; i < 9; i++);"),
        ["(for (var i=0) (< i 9) (post++ i) <empty>)"]
    );
    assert_eq!(
        statements("for (let i = 0;;);"),
        ["(for (let i=0) ; ; <empty>)"]
    );
    assert_eq!(
        statements("for (const i = 0;;);"),
        ["(for (const i=0) ; ; <empty>)"]
    );
    assert_eq!(
        statements("for (var a, b;;);"),
        ["(for (var a b) ; ; <empty>)"]
    );
    assert_eq!(
        statements("for (let a, b;;);"),
        ["(for (let a b) ; ; <empty>)"]
    );
    assert_eq!(statements("for (let a;;);"), ["(for (let a) ; ; <empty>)"]);

    assert_eq!(
        script_error("for (const a;;);").kind,
        ParseErrorKind::ConstWithoutInitializer
    );
    assert_eq!(
        script_error("for (let a, a;;);").kind,
        ParseErrorKind::DuplicateLexicalBinding
    );
    assert_eq!(
        script_error("for (let let;;);").kind,
        ParseErrorKind::LetAsLexicalBindingName
    );

    assert_eq!(statements("for (let;;);"), ["(for let ; ; <empty>)"]);
    assert_eq!(
        statements("for (let = 1;;);"),
        ["(for (= let 1) ; ; <empty>)"]
    );
}

#[test]
fn no_semicolon_is_ever_inserted_where_it_would_become_one_of_the_headers_two() {

    assert_eq!(
        script_error("for (var a);").kind,
        ParseErrorKind::Unexpected {
            expected: "`;`",
            found: TokenKind::RParen,
        }
    );
    assert!(parse_script("for (let a);").is_err());
    assert!(parse_script("for (a);").is_err());

    assert!(parse_script("for (var a\n);").is_err());
    assert!(parse_script("for (a\n);").is_err());
    assert!(
        parse_script("for (var a\n;\n);").is_err(),
        "still only one of the two"
    );
    assert!(
        parse_script("for (var a\n;\n;\n);").is_ok(),
        "both written out is fine"
    );
}

#[test]
fn in_is_not_an_operator_in_the_first_clause_and_is_everywhere_else() {

    assert!(parse_script("for (a in b;;);").is_err());
    assert!(parse_script("for (var a = b in c;;);").is_err());
    assert!(parse_script("for (a = b in c;;);").is_err());

    assert_eq!(
        statements("for (;a in b;);"),
        ["(for ; (in a b) ; <empty>)"]
    );
    assert_eq!(
        statements("for (;;a in b);"),
        ["(for ; ; (in a b) <empty>)"]
    );

    assert_eq!(
        statements("for ((a in b);;);"),
        ["(for (in a b) ; ; <empty>)"]
    );
    assert_eq!(
        statements("for (a[b in c];;);"),
        ["(for ([] a (in b c)) ; ; <empty>)"]
    );
    assert_eq!(
        statements("for (f(a in b);;);"),
        ["(for (call f [(in a b)]) ; ; <empty>)"]
    );
    assert_eq!(
        statements("for (var a = (b in c);;);"),
        ["(for (var a=(in b c)) ; ; <empty>)"]
    );

    assert_eq!(
        statements("for (a ? b in c : d;;);"),
        ["(for (? a (in b c) d) ; ; <empty>)"]
    );
    assert!(parse_script("for (a ? b : c in d;;);").is_err());

    assert_eq!(
        statements("for (a instanceof b;;);"),
        ["(for (instanceof a b) ; ; <empty>)"]
    );

    assert_eq!(statements("a in b;"), ["(in a b)"]);
    assert_eq!(statements("while (a in b);"), ["(while (in a b) <empty>)"]);
}

#[test]
fn for_statement_the_header_is_a_scope_between_the_enclosing_one_and_the_body() {

    assert_eq!(
        script_error("for (let a;;) { var a; }").kind,
        ParseErrorKind::ConflictingVarAndLexicalDeclaration
    );
    for source in [
        "for (let a;;) var a;",
        "for (const a = 1;;) { var a; }",
        "for (let a;;) { { var a; } }",
        "for (let a;;) { if (x) var a; }",
        "for (let a;;) { try {} finally { var a; } }",
        "for (let a;;) { switch (x) { case 1: var a; } }",
    ] {
        assert_eq!(
            script_error(source).kind,
            ParseErrorKind::ConflictingVarAndLexicalDeclaration,
            "{source:?}"
        );
    }

    assert!(parse_script("for (let a;;) { let a; }").is_ok());
    assert!(parse_script("for (let a;;) { const a = 1; }").is_ok());

    assert!(parse_script("for (var a;;) { var a; }").is_ok());

    assert!(parse_script("let a; for (let a;;);").is_ok());

    assert_eq!(
        script_error("let a; for (var a;;);").kind,
        ParseErrorKind::ConflictingVarAndLexicalDeclaration
    );
    assert_eq!(
        script_error("let a; for (;;) { var a; }").kind,
        ParseErrorKind::ConflictingVarAndLexicalDeclaration
    );
}

#[test]
fn a_for_is_an_iteration_statement_for_break_and_for_continue_alike() {
    assert_eq!(statements("for (;;) break;"), ["(for ; ; ; break)"]);
    assert_eq!(statements("for (;;) continue;"), ["(for ; ; ; continue)"]);
    assert!(parse_script("for (;;) { switch (x) { case 1: continue; } }").is_ok());
    assert!(parse_script("for (;;) { for (;;) break; }").is_ok());

    assert_eq!(
        script_error("for (;;) {} break;").kind,
        ParseErrorKind::BreakOutsideLoop
    );
    assert!(parse_script("for (;;) { @ }").is_err());
    assert_eq!(
        script_error("continue;").kind,
        ParseErrorKind::ContinueOutsideLoop
    );
}

#[test]
fn no_for_however_truncated_can_panic() {
    let cases = [
        "for".to_string(),
        "for (".to_string(),
        "for (;".to_string(),
        "for (;;".to_string(),
        "for (;;)".to_string(),
        "for (var".to_string(),
        "for (let".to_string(),
        "for (var a".to_string(),
        "for (a in".to_string(),
        "for (;;) ".repeat(1000),
        format!("for ({};;);", "(".repeat(10_000)),
    ];
    for source in &cases {
        let _ = parse_script(source);
    }
    assert_eq!(
        script_error(&"for (;;) ".repeat(1000)).kind,
        ParseErrorKind::TooDeeplyNested
    );
}

#[test]
fn a_slash_after_a_declaration_opens_a_regular_expression() {

    assert!(parse_script("function f() {}\n/re/.test(x);").is_ok());
    assert!(parse_script("class C {}\n/re/.test(x);").is_ok());
    assert!(parse_script("async function f() {}\n/re/.test(x);").is_ok());
    assert!(parse_script("function* g() {}\n/re/.test(x);").is_ok());

    assert!(parse_script("function fn() {\n return\n function foo() {}\n /42/i\n }").is_ok());

    assert_eq!(shape("(function () {}) / 2"), "(/ (fn <anon> [] {}) 2)");
    assert_eq!(shape("(class {}) / 2"), "(/ (class <anon> - []) 2)");

    assert!(parse_script("x = function () {} / 2;").is_ok());
    assert!(parse_script("x = class {} / 2;").is_ok());

    assert!(
        parse_script(
            "var f = x => {}
/re/.test(x);"
        )
        .is_ok()
    );
    assert!(
        parse_script(
            "var f = async x => {}
/re/.test(x);"
        )
        .is_ok()
    );
    assert!(
        parse_script(
            "var f = async (x) => {}
/re/.test(x);"
        )
        .is_ok()
    );
    assert!(
        parse_script(
            "var g = () => { var f = x => {}
/re/.test(x) };"
        )
        .is_ok()
    );

    assert!(parse_script("x = y => {} / 2;").is_err());

    assert!(parse_script("x = (y => {}) / 2;").is_ok());

    assert!(
        parse_script(
            "var f = x => y
/re/.test(x);"
        )
        .is_err()
    );
}

#[test]
fn a_declaration_must_be_named_and_an_expression_need_not_be() {
    assert_eq!(statements("function f() {}"), ["(fn f [] {})"]);
    assert_eq!(statements("function f() { a; }"), ["(fn f [] {a})"]);
    assert_eq!(statements("(function () {});"), ["(fn <anon> [] {})"]);
    assert_eq!(statements("(function f() {});"), ["(fn f [] {})"]);
    assert_eq!(
        statements("var x = function () {};"),
        ["(var x=(fn <anon> [] {}))"]
    );
    assert_eq!(
        statements("typeof function () {};"),
        ["(typeof (fn <anon> [] {}))"]
    );

    assert!(parse_script("function () {}").is_err());

    assert_eq!(
        script_error("function () {}").kind,
        ParseErrorKind::Unexpected {
            expected: "a binding name",
            found: praxis::lexer::TokenKind::LParen,
        }
    );
}

#[test]
fn parameters_are_binding_elements_and_the_rest_is_last() {
    assert_eq!(statements("function f(a) {}"), ["(fn f [a] {})"]);
    assert_eq!(statements("function f(a, b) {}"), ["(fn f [a b] {})"]);
    assert_eq!(statements("function f(a,) {}"), ["(fn f [a] {})"]);
    assert_eq!(statements("function f() {}"), ["(fn f [] {})"]);

    assert_eq!(statements("function f(a = 1) {}"), ["(fn f [(= a 1)] {})"]);
    assert_eq!(statements("function f([a]) {}"), ["(fn f [[a]] {})"]);
    assert_eq!(statements("function f({a}) {}"), ["(fn f [{(a a)}] {})"]);
    assert_eq!(
        statements("function f([a] = b) {}"),
        ["(fn f [(= [a] b)] {})"]
    );
    assert_eq!(statements("function f(...a) {}"), ["(fn f [(... a)] {})"]);
    assert_eq!(
        statements("function f(a, ...b) {}"),
        ["(fn f [a (... b)] {})"]
    );
    assert_eq!(
        statements("function f(...[a]) {}"),
        ["(fn f [(... [a])] {})"]
    );

    assert_eq!(
        script_error("function f(...a, b) {}").kind,
        ParseErrorKind::RestElementMustBeLast
    );
    assert_eq!(
        script_error("function f(...a,) {}").kind,
        ParseErrorKind::RestElementMustBeLast
    );
}

#[test]
fn a_simple_parameter_list_may_repeat_a_name_and_no_other_kind_may() {

    assert_eq!(statements("function f(a, a) {}"), ["(fn f [a a] {})"]);
    assert_eq!(statements("function f(a, a, a) {}"), ["(fn f [a a a] {})"]);

    for source in [
        "function f(a, a = 1) {}",
        "function f(a = 1, a) {}",
        "function f([a, a]) {}",
        "function f(a, [a]) {}",
        "function f(a, ...a) {}",
        "function f({b: a}, [a]) {}",
    ] {
        assert_eq!(
            script_error(source).kind,
            ParseErrorKind::DuplicateParameterName,
            "{source:?}"
        );
    }

    assert!(parse_script("function f(a, b = 1) {}").is_ok());
    assert!(parse_script("function f([a], {b}) {}").is_ok());
}

#[test]
fn return_is_a_statement_only_where_a_function_body_says_so() {
    assert_eq!(
        statements("function f() { return; }"),
        ["(fn f [] {return})"]
    );
    assert_eq!(
        statements("function f() { return 1; }"),
        ["(fn f [] {(return 1)})"]
    );
    assert_eq!(
        statements("function f() { return a, b; }"),
        ["(fn f [] {(return (, a b))})"]
    );
    assert_eq!(
        statements("function f() { if (x) return; }"),
        ["(fn f [] {(if x return)})"]
    );

    assert_eq!(
        script_error("return;").kind,
        ParseErrorKind::ReturnOutsideFunction
    );
    assert_eq!(
        script_error("{ return; }").kind,
        ParseErrorKind::ReturnOutsideFunction
    );
    assert_eq!(
        script_error("for (;;) return;").kind,
        ParseErrorKind::ReturnOutsideFunction
    );

    assert_eq!(
        script_error("function f() {} return;").kind,
        ParseErrorKind::ReturnOutsideFunction
    );
    assert_eq!(
        script_error("function f() { return; } return;").kind,
        ParseErrorKind::ReturnOutsideFunction
    );

    assert!(parse_script("function f() { @ }").is_err());
    assert_eq!(
        script_error("return;").kind,
        ParseErrorKind::ReturnOutsideFunction
    );

    assert!(parse_script("function f() { function g() { return; } return; }").is_ok());

    assert_eq!(
        statements("function f() { return\n1; }"),
        ["(fn f [] {return 1})"],
        "a bare return, then the expression statement `1`"
    );
    assert_eq!(
        statements("function f() { return }"),
        ["(fn f [] {return})"],
        "…and a closing brace ends it, by §12.10 rule 1"
    );
}

#[test]
fn a_function_body_is_where_the_walks_stop_and_start_again() {

    assert_eq!(
        script_error("function f() { let a; let a; }").kind,
        ParseErrorKind::DuplicateLexicalBinding
    );
    assert_eq!(
        script_error("function f() { let a; var a; }").kind,
        ParseErrorKind::ConflictingVarAndLexicalDeclaration
    );
    assert_eq!(
        script_error("function f() { a: a: ; }").kind,
        ParseErrorKind::DuplicateLabel
    );
    assert_eq!(
        script_error("function f() { break a; }").kind,
        ParseErrorKind::UndefinedBreakTarget
    );

    assert_eq!(
        script_error("while (1) { function f() { break; } }").kind,
        ParseErrorKind::BreakOutsideLoop
    );
    assert_eq!(
        script_error("a: while (1) { function f() { continue a; } }").kind,
        ParseErrorKind::ContinueOutsideLoop
    );
    assert_eq!(
        script_error("a: { function f() { break a; } }").kind,
        ParseErrorKind::UndefinedBreakTarget
    );

    assert!(parse_script("a: { function f() { a: ; } }").is_ok());

    assert!(parse_script("let a; function f() { var a; }").is_ok());
    assert!(parse_script("function f() { let a; function g() { var a; } }").is_ok());

    assert_eq!(
        script_error("function f(a) { let a; }").kind,
        ParseErrorKind::ParameterRedeclaredInBody
    );
    assert_eq!(
        script_error("function f([a]) { const a = 1; }").kind,
        ParseErrorKind::ParameterRedeclaredInBody
    );

    assert!(parse_script("function f(a) { var a; }").is_ok());
    assert!(parse_script("function f(a) { { let a; } }").is_ok());
}

#[test]
fn a_function_is_var_scoped_at_a_top_level_and_lexical_anywhere_else() {

    assert!(parse_script("function f() {} function f() {}").is_ok());
    assert!(parse_script("var f; function f() {}").is_ok());
    assert!(parse_script("function f() { function g() {} function g() {} }").is_ok());

    assert_eq!(
        script_error("let f; function f() {}").kind,
        ParseErrorKind::ConflictingVarAndLexicalDeclaration
    );
    assert_eq!(
        script_error("function f() {} let f;").kind,
        ParseErrorKind::ConflictingVarAndLexicalDeclaration
    );
    assert_eq!(
        script_error("function f() { let g; function g() {} }").kind,
        ParseErrorKind::ConflictingVarAndLexicalDeclaration
    );

    assert_eq!(
        script_error("{ let f; function f() {} }").kind,
        ParseErrorKind::DuplicateLexicalBinding
    );
    assert_eq!(
        script_error("{ function f() {} function f() {} }").kind,
        ParseErrorKind::DuplicateLexicalBinding,
        "refused; §14.2.1's web-compat carve-out for this needs strict mode to state"
    );

    assert!(parse_script("function f() { { function g() {} } let g; }").is_ok());
    assert!(parse_script("{ function f() {} } let f;").is_ok());
}

#[test]
fn the_three_shapes_a_web_host_would_take_are_refused_together() {

    for source in ["if (x) function f() {}", "a: function f() {}"] {
        assert_eq!(
            script_error(source).kind,
            ParseErrorKind::DeclarationInStatementPosition,
            "{source:?}"
        );
    }

    assert_eq!(
        script_error("while (x) function f() {}").kind,
        ParseErrorKind::DeclarationInStatementPosition
    );
}

#[test]
fn no_function_however_truncated_can_panic() {
    let cases = [
        "function".to_string(),
        "function f".to_string(),
        "function f(".to_string(),
        "function f()".to_string(),
        "function f() {".to_string(),
        "function f(a".to_string(),
        "function f(...".to_string(),
        "(function".to_string(),
        "function f() { return".to_string(),
        "function f() { ".repeat(1000),
        format!("function f({}) {{}}", "a, ".repeat(100_000)),
    ];
    for source in &cases {
        let _ = parse_script(source);
    }

    assert_eq!(
        script_error(&"function f() { ".repeat(1000)).kind,
        ParseErrorKind::TooDeeplyNested
    );

    let many: String = (0..5_000).map(|i| format!("a{i}, ")).collect();
    assert!(parse_script(&format!("function f({many}b) {{}}")).is_ok());
}

fn generator_kind(source: &str) -> ParseErrorKind {
    script_error(source).kind
}

#[test]
fn a_star_after_the_word_function_is_the_whole_of_the_syntax_difference() {
    assert_eq!(statements("function* g() {}"), ["(fn* g [] {})"]);
    assert_eq!(statements("function g() {}"), ["(fn g [] {})"]);
    assert_eq!(shape("(function* () {})"), "(fn* <anon> [] {})");
    assert_eq!(shape("(function* g() {})"), "(fn* g [] {})");

    for source in ["function*g() {}", "function * g() {}", "function*\ng() {}"] {
        assert_eq!(statements(source), ["(fn* g [] {})"], "{source:?}");
    }
    assert_eq!(statements("function\n* g() {}"), ["(fn* g [] {})"]);

    assert!(parse_script("function* () {}").is_err());
    assert_eq!(
        generator_kind("if (a) function* g() {}"),
        ParseErrorKind::DeclarationInStatementPosition
    );
    assert_eq!(
        generator_kind("a: function* g() {}"),
        ParseErrorKind::DeclarationInStatementPosition
    );
}

#[test]
fn a_generator_method_is_written_with_the_star_before_the_name() {
    assert_eq!(shape("({*m() {}})"), "{(m (fn* <anon> [] {}))}");
    assert_eq!(shape("({* m() {}})"), "{(m (fn* <anon> [] {}))}");
    assert_eq!(shape("({*[a]() {}})"), "{([a] (fn* <anon> [] {}))}");
    assert_eq!(
        statements("class C { *m() {} }"),
        ["(class C - [(m (fn* <anon> [] {}))])"]
    );
    assert_eq!(
        statements("class C { static *m() {} }"),
        ["(class C - [(static m (fn* <anon> [] {}))])"]
    );

    for source in [
        "class C { *static() {} }",
        "class C { static *static() {} }",
        "class C { *get() {} }",
        "class C { *yield() {} }",
        "({*yield() {}});",
        "({*if() {}});",
        "class C { *1() {} }",
        "({*\"s\"() {}});",
    ] {
        assert!(parse_script(source).is_ok(), "{source:?}");
    }

    for source in [
        "({get *a() {}});",
        "({set *a(v) {}});",
        "class C { get *m() {} }",
    ] {
        assert!(parse_script(source).is_err(), "{source:?}");
    }

    assert_eq!(
        generator_kind("class C { *constructor() {} }"),
        ParseErrorKind::ConstructorMayNotBeAGenerator
    );
    assert!(parse_script("class C { static *constructor() {} }").is_ok());

    assert_eq!(
        generator_kind("class C { static *prototype() {} }"),
        ParseErrorKind::StaticPrototype
    );

    assert_eq!(
        generator_kind("class C { *m(a, a) {} }"),
        ParseErrorKind::DuplicateParameterName
    );
    assert!(parse_script("class C { *m() { super.a; } }").is_ok());
    assert!(parse_script("({*m() { super.a; }});").is_ok());
    assert_eq!(
        generator_kind("class C { *m() { super(); } }"),
        ParseErrorKind::SuperCallOutsideDerivedConstructor
    );
}

#[test]
fn yield_is_an_operator_where_the_parameter_is_set_and_a_name_where_it_is_not() {
    assert_eq!(
        shape("(function* () { yield; })"),
        "(fn* <anon> [] {(yield)})"
    );
    assert_eq!(
        shape("(function* () { yield 1; })"),
        "(fn* <anon> [] {(yield 1)})"
    );
    assert_eq!(
        shape("(function* () { yield* a; })"),
        "(fn* <anon> [] {(yield* a)})"
    );

    assert_eq!(statements("yield;"), ["yield"]);
    assert_eq!(statements("var yield;"), ["(var yield)"]);
    assert_eq!(statements("function f() { yield; }"), ["(fn f [] {yield})"]);
    assert_eq!(
        generator_kind("\"use strict\"; yield;"),
        ParseErrorKind::StrictReservedWord
    );

    assert!(parse_script("yield 1;").is_err());
    assert!(parse_script("function f() { yield 1; }").is_err());
}

#[test]
fn a_forbidden_in_parameters_is_an_assignment_expression_and_nothing_tighter() {

    for source in [
        "1 + yield;",
        "yield ** 2;",
        "yield ? a : b;",
        "yield in a;",
        "yield.a;",
        "yield = 1;",
        "new yield;",
        "typeof yield;",
        "++yield;",
    ] {
        assert!(
            parse_script(&format!("function* g() {{ {source} }}")).is_err(),
            "{source:?}"
        );
    }

    for source in ["(yield) ** 2;", "(yield);", "[yield];", "f(yield);"] {
        assert!(
            parse_script(&format!("function* g() {{ {source} }}")).is_ok(),
            "{source:?}"
        );
    }

    for source in [
        "x = yield;",
        "x += yield;",
        "yield, 1;",
        "a ? b : yield;",
        "[a] = yield;",
        "return yield;",
        "throw yield;",
        "if (yield) ;",
        "while (yield) ;",
        "switch (yield) {}",
        "for (a of yield);",
        "[...yield];",
        "`${yield}`;",
    ] {
        assert!(
            parse_script(&format!("function* g() {{ {source} }}")).is_ok(),
            "{source:?}"
        );
    }
}

#[test]
fn the_bare_form_wins_when_no_assignment_expression_could_begin() {

    assert_eq!(
        shape("(function* () { (yield, 1) })"),
        "(fn* <anon> [] {(, (yield) 1)})"
    );
    assert_eq!(
        shape("(function* () { yield yield 1 })"),
        "(fn* <anon> [] {(yield (yield 1))})"
    );

    assert_eq!(
        shape("(function* () { yield (1) })"),
        "(fn* <anon> [] {(yield 1)})"
    );
    assert!(parse_script("function* g() { yield`x`; }").is_ok());

    for operand in ["-a", "+a", "!a", "~a", "++a", "--a"] {
        let source = format!("function* g() {{ yield {operand}; }}");
        assert!(parse_script(&source).is_ok(), "{source:?}");
        assert!(
            shape(&format!("(function* () {{ yield {operand} }})"))
                .starts_with("(fn* <anon> [] {(yield ("),
            "{operand:?} is the operand and not a statement of its own"
        );
    }

    assert!(parse_script("function* g() { yield /a/g; }").is_ok());

    assert_eq!(
        statements("function* g() { yield\n1; }"),
        ["(fn* g [] {(yield) 1})"]
    );

    assert!(parse_script("function* g() { yield*; }").is_err());

    assert!(parse_script("function* g() { yield*\na; }").is_ok());
    assert!(parse_script("function* g() { yield\n* a; }").is_err());

    assert!(parse_script("function* g() { yield ...a; }").is_err());
}

#[test]
fn the_parameter_turns_off_at_a_function_and_not_at_anything_smaller() {

    assert!(parse_script("function* g() { function h(yield) {} }").is_ok());
    assert!(parse_script("function* g() { function h() { yield; } }").is_ok());
    assert!(parse_script("function* g() { (function() { yield; }); }").is_ok());
    assert!(parse_script("function* g() { ({ m() { yield; } }); }").is_ok());

    assert!(parse_script("function* g() { function* h() { yield 1; } }").is_ok());
    assert!(parse_script("function* g() { ({ *m() { yield 1; } }); }").is_ok());

    assert!(parse_script("function* g() { { yield 1; } }").is_ok());
    assert!(parse_script("function* g() { while (a) yield 1; }").is_ok());
    assert!(parse_script("function* g() { label: yield 1; }").is_ok());

    assert!(parse_script("function* g() { class C { m() { yield 1; } } }").is_err());
}

#[test]
fn an_arrows_parameters_keep_the_parameter_and_its_body_drops_it() {

    assert!(parse_script("function* g() { () => yield; }").is_ok());
    assert!(parse_script("function* g() { (a) => yield; }").is_ok());
    assert!(parse_script("function* g() { ((a) => { yield; }); }").is_ok());

    assert!(parse_script("function* g() { () => yield 1; }").is_err());
    assert!(parse_script("function* g() { () => { yield 1; } }").is_err());

    assert_eq!(
        generator_kind("\"use strict\"; function* g() { () => yield; }"),
        ParseErrorKind::StrictReservedWord
    );

    assert_eq!(
        generator_kind("function* g() { (a = yield) => 1; }"),
        ParseErrorKind::YieldInParameters
    );

    assert!(parse_script("function* g() { (yield) => 1; }").is_err());
    assert!(parse_script("function* g() { yield => 1; }").is_err());

    assert!(parse_script("function* g(a = () => yield) {}").is_ok());
}

#[test]
fn a_declarations_name_inherits_the_parameter_and_an_expressions_does_not() {

    assert!(parse_script("function* g() { function yield() {} }").is_err());
    assert!(parse_script("function* g() { function* yield() {} }").is_err());
    assert!(parse_script("function* g() { (function yield() {}); }").is_ok());

    assert!(parse_expression("(function* yield() {})").is_err());

    assert!(parse_script("function yield() {}").is_ok());
    assert!(parse_script("function* yield() {}").is_ok());
}

#[test]
fn every_binding_position_refuses_the_name_where_the_parameter_is_set() {

    for source in [
        "var yield;",
        "let yield;",
        "const yield = 1;",
        "class yield {}",
        "try {} catch (yield) {}",
        "for (var yield of a);",
        "({yield} = a);",
    ] {
        assert!(
            parse_script(&format!("function* g() {{ {source} }}")).is_err(),
            "{source:?}"
        );
    }

    assert!(parse_script("function* g() { yield: 1; }").is_err());
    assert!(parse_script("function* g() { break yield; }").is_err());
    assert!(parse_script("function f() { yield: 1; }").is_ok());

    for source in [
        "a.yield;",
        "({yield: 1});",
        "({yield: a} = b);",
        "({ get yield() {} });",
        "({ [yield]: 1 });",
    ] {
        assert!(
            parse_script(&format!("function* g() {{ {source} }}")).is_ok(),
            "{source:?}"
        );
    }
}

#[test]
fn a_generators_own_parameters_may_not_contain_one_and_a_nested_functions_may() {

    for source in [
        "function* g(a = yield) {}",
        "function* g(a = yield 1) {}",
        "function* g(a = yield * b) {}",
        "function* g(a = [yield]) {}",
        "function* g({a = yield}) {}",
        "({*m(a = yield) {}});",
    ] {
        assert_eq!(
            generator_kind(source),
            ParseErrorKind::YieldInParameters,
            "{source:?}"
        );
    }

    assert!(parse_script("function* g(yield) {}").is_err());

    for source in [
        "function* g(a = function*() { yield; }) {}",
        "function* g(a = function() { yield; }) {}",
        "function* g(a = () => yield) {}",
        "function* g(a = { *m() { yield; } }) {}",
        "function* g(a = class { *m() { yield; } }) {}",
        "({*m(a = function*() { yield; }) {}});",
    ] {
        assert!(parse_script(source).is_ok(), "{source:?}");
    }

    assert!(parse_script("function* g() { (function(a = yield) {}); }").is_ok());
    assert!(parse_script("function* g() { ({ m(a = yield) {} }); }").is_ok());

    assert_eq!(
        generator_kind("function* g() { (function*(a = yield) {}); }"),
        ParseErrorKind::YieldInParameters
    );

    assert_eq!(
        generator_kind("function* g(a = (yield)) {}"),
        ParseErrorKind::YieldInParameters
    );

    assert!(parse_script("function* g() { (yield); }").is_ok());
}

#[test]
fn a_generator_body_is_a_function_body_in_every_other_respect() {
    assert!(parse_script("function* g() { super.a; }").is_err());
    assert!(parse_script("function* g() { return; }").is_ok());
    assert!(parse_script("function* g() { arguments; eval; }").is_ok());
    assert!(parse_script("function* g(a, a) {}").is_ok());
    assert_eq!(
        generator_kind("\"use strict\"; function* g(a, a) {}"),
        ParseErrorKind::DuplicateParameterName
    );
    assert_eq!(
        generator_kind("function* g(a = 1) { \"use strict\"; }"),
        ParseErrorKind::UseStrictWithNonSimpleParameters
    );
}

#[test]
fn no_generator_however_truncated_can_panic() {
    let deep = format!("function* g() {{ {}1; }}", "yield ".repeat(1000));
    let cases = [
        "function*".to_string(),
        "function* g".to_string(),
        "function* g(".to_string(),
        "function* g() {".to_string(),
        "function* g() { yield".to_string(),
        "function* g() { yield*".to_string(),
        "function* g() { yield* ".to_string(),
        "({*".to_string(),
        "({*m".to_string(),
        "class C { *".to_string(),
        "*m() {}".to_string(),
        deep.clone(),
    ];
    for source in &cases {
        let _ = parse_script(source);
    }

    assert_eq!(generator_kind(&deep), ParseErrorKind::TooDeeplyNested);
}

#[test]
fn an_identifier_and_a_colon_begin_a_labelled_statement() {
    assert_eq!(statements("a: ;"), ["(label a <empty>)"]);
    assert_eq!(statements("a: b;"), ["(label a b)"]);
    assert_eq!(statements("a: { b; }"), ["(label a {b})"]);
    assert_eq!(statements("a: b: ;"), ["(label a (label b <empty>))"]);
    assert_eq!(
        statements("a: while (1) ;"),
        ["(label a (while 1 <empty>))"]
    );
    assert_eq!(statements("a: if (x) ;"), ["(label a (if x <empty>))"]);

    assert_eq!(statements("let: ;"), ["(label let <empty>)"]);
    assert_eq!(statements("of: ;"), ["(label of <empty>)"]);
    assert_eq!(statements("async: ;"), ["(label async <empty>)"]);
    assert!(parse_script("if: ;").is_err());
    assert!(parse_script("this: ;").is_err());

    assert_eq!(statements("yield: ;"), ["(label yield <empty>)"]);
    assert_eq!(statements("await: ;"), ["(label await <empty>)"]);
    assert_eq!(statements("var yield = 1;"), ["(var yield=1)"]);

    assert_eq!(statements(r"a: ;"), ["(label a <empty>)"]);

    assert_eq!(statements("a;"), ["a"]);
    assert_eq!(statements("a ? b : c;"), ["(? a b c)"]);
    let script = parse_script("ab: ;").expect("this parses");
    assert_eq!(script.body[0].span, Span::new(0, 5));
}

#[test]
fn yield_and_await_are_ordinary_names_where_no_production_reserves_them() {

    assert_eq!(statements("yield;"), ["yield"]);
    assert_eq!(statements("await;"), ["await"]);
    assert_eq!(statements("yield = 1;"), ["(= yield 1)"]);
    assert_eq!(statements("typeof yield;"), ["(typeof yield)"]);
    assert_eq!(statements("yield in a;"), ["(in yield a)"]);
    assert_eq!(statements("f(yield, await);"), ["(call f [yield await])"]);

    assert_eq!(statements("var yield = 1;"), ["(var yield=1)"]);
    assert_eq!(statements("let await = 1;"), ["(let await=1)"]);
    assert_eq!(statements("const yield = 1;"), ["(const yield=1)"]);
    assert_eq!(
        statements("try {} catch (yield) {}"),
        ["(try {} (catch yield {}))"]
    );
    assert_eq!(statements("let [yield] = a;"), ["(let [yield]=a)"]);
    assert_eq!(
        statements("for (var await of a);"),
        ["(for-of (var await) a <empty>)"]
    );

    assert_eq!(statements("yield: ;"), ["(label yield <empty>)"]);
    assert_eq!(
        statements("await: while (1) continue await;"),
        ["(label await (while 1 (continue await)))"]
    );

    assert_eq!(statements("a.yield;"), ["(. a yield)"]);
    assert_eq!(statements("a.await;"), ["(. a await)"]);
    assert_eq!(shape("({yield: 1})"), "{(yield 1)}");
    assert_eq!(shape("({if: 1})"), "{(if 1)}");

    assert_eq!(shape("({yield})"), "{yield}");
    assert_eq!(shape("({await})"), "{await}");
    assert!(parse_script("({if});").is_err());

    for source in ["var if = 1;", "new;", "if: ;", "class: ;", "typeof var;"] {
        assert!(parse_script(source).is_err(), "{source:?}");
    }

    assert_eq!(statements(r"var \u0079ield = 1;"), ["(var yield=1)"]);
}

#[test]
fn a_labelled_item_is_a_statement_so_var_may_stand_there_and_let_may_not() {

    assert_eq!(statements("a: var b;"), ["(label a (var b))"]);
    assert!(parse_script("a: let b;").is_err());
    assert!(parse_script("a: const b = 1;").is_err());

    assert_eq!(statements("a: { let b; }"), ["(label a {(let b)})"]);

    assert!(parse_script("a: function f() {}").is_err());
}

#[test]
fn break_and_continue_take_a_label_on_the_same_line_and_not_on_the_next() {
    assert_eq!(statements("a: { break a; }"), ["(label a {(break a)})"]);
    assert_eq!(
        statements("a: while (1) continue a;"),
        ["(label a (while 1 (continue a)))"]
    );
    assert_eq!(statements("while (1) break;"), ["(while 1 break)"]);

    assert_eq!(
        statements("while (1) { break\na; }"),
        ["(while 1 {break a})"],
        "two statements: an unlabelled break, then `a`"
    );
    assert_eq!(
        statements("a: while (1) { continue\na; }"),
        ["(label a (while 1 {continue a}))"]
    );

    assert_eq!(
        statements("a: while (1) { continue a; }"),
        ["(label a (while 1 {(continue a)}))"]
    );

    assert_eq!(statements(r"a: { break a; }"), ["(label a {(break a)})"]);

    assert!(parse_script("a: { break if; }").is_err());
}

#[test]
fn every_rule_about_what_a_label_means_is_reported_from_the_tree() {

    assert_eq!(script_error("a: a: ;").kind, ParseErrorKind::DuplicateLabel);
    assert_eq!(
        script_error("a: { a: ; }").kind,
        ParseErrorKind::DuplicateLabel
    );
    assert_eq!(
        script_error("break a;").kind,
        ParseErrorKind::UndefinedBreakTarget
    );
    assert_eq!(
        script_error("a: { continue a; }").kind,
        ParseErrorKind::ContinueOutsideLoop
    );
    assert_eq!(
        script_error("while (1) { a: continue a; }").kind,
        ParseErrorKind::UndefinedContinueTarget
    );
    assert_eq!(
        script_error("break;").kind,
        ParseErrorKind::BreakOutsideLoop
    );
    assert_eq!(
        script_error("continue;").kind,
        ParseErrorKind::ContinueOutsideLoop
    );

    assert_eq!(script_error("a: ; break zz;").span, Span::new(11, 13));
    assert_eq!(script_error("a: a: ;").span, Span::new(3, 4));

    assert!(parse_script("a: ; a: ;").is_ok());
    assert!(parse_script("a: while (1) break a;").is_ok());
    assert!(parse_script("a: switch (x) { case 1: break a; }").is_ok());
}

#[test]
fn no_label_however_odd_can_panic() {
    let cases = [
        "a:".to_string(),
        "a: b:".to_string(),
        "break a".to_string(),
        "continue a".to_string(),
        "a: ".repeat(1000),
        "a: b: c: d: e: ;".to_string(),
        format!(
            "{} ;",
            (0..500).map(|i| format!("l{i}: ")).collect::<String>()
        ),
    ];
    for source in &cases {
        let _ = parse_script(source);
    }

    assert_eq!(
        script_error(&"a: ".repeat(1000)).kind,
        ParseErrorKind::TooDeeplyNested
    );

    let many: String = (0..500).map(|i| format!("l{i}: ")).collect::<String>() + ";";
    assert!(parse_script(&many).is_err(), "still past the nesting cap");
}

fn member_kind(source: &str) -> ParseErrorKind {
    script_error(source).kind
}
#[test]
fn member_access_chains_and_takes_any_identifier_name_after_the_dot() {
    assert_eq!(shape("a.b"), "(. a b)");
    assert_eq!(shape("a.b.c"), "(. (. a b) c)");
    assert_eq!(shape("a[b]"), "([] a b)");
    assert_eq!(shape("a[b][c]"), "([] ([] a b) c)");
    assert_eq!(shape("a.b[c].d"), "(. ([] (. a b) c) d)");

    assert_eq!(shape("a[b + c]"), "([] a (+ b c))");
    assert_eq!(shape("a[b, c]"), "([] a (, b c))");

    assert_eq!(shape("a.if"), "(. a if)");
    assert_eq!(shape("a.new"), "(. a new)");
    assert_eq!(shape("a.class"), "(. a class)");
    assert_eq!(shape("a.default"), "(. a default)");

    assert_eq!(shape(r"a.\u0069f"), "(. a if)");

    assert_eq!(shape("a.b + c.d"), "(+ (. a b) (. c d))");
    assert_eq!(shape("-a.b"), "(- (. a b))");
    assert_eq!(parse("a.b").span, Span::new(0, 3));
    assert_eq!(parse("a[b]").span, Span::new(0, 4));

    assert!(!parse("a.b").parenthesized);
    assert!(parse("(a.b)").parenthesized);
    assert!(!parse("a[b]").parenthesized);
    assert!(parse("(a[b])").parenthesized);

    assert_eq!(
        error("a.").kind,
        ParseErrorKind::Unexpected {
            expected: "a property name",
            found: TokenKind::Eof,
        }
    );
    assert_eq!(
        error("a.+").kind,
        ParseErrorKind::Unexpected {
            expected: "a property name",
            found: TokenKind::Plus,
        }
    );

    assert_eq!(
        error("a.1").kind,
        ParseErrorKind::Unexpected {
            expected: "end of input",
            found: TokenKind::Number { legacy: false },
        }
    );
    assert_eq!(shape("a.b1"), "(. a b1)");
    assert_eq!(
        error("a[b").kind,
        ParseErrorKind::Unexpected {
            expected: "`]`",
            found: TokenKind::Eof,
        }
    );
    assert_eq!(
        error("a[]").kind,
        ParseErrorKind::Unexpected {
            expected: "an expression",
            found: TokenKind::RBracket,
        }
    );
}

#[test]
fn a_call_takes_an_argument_list_and_chains_with_everything_else() {
    assert_eq!(shape("f()"), "(call f [])");
    assert_eq!(shape("f(a)"), "(call f [a])");
    assert_eq!(shape("f(a, b, c)"), "(call f [a b c])");
    assert_eq!(shape("f()()"), "(call (call f []) [])");
    assert_eq!(shape("f().g()"), "(call (. (call f []) g) [])");
    assert_eq!(shape("a.b(c)"), "(call (. a b) [c])");
    assert_eq!(shape("f(a)[b]"), "([] (call f [a]) b)");

    assert_eq!(shape("f(a,)"), "(call f [a])");
    assert_eq!(shape("f(a, b,)"), "(call f [a b])");
    assert_eq!(
        error("f(,)").kind,
        ParseErrorKind::Unexpected {
            expected: "an expression",
            found: TokenKind::Comma,
        }
    );

    assert_eq!(shape("f(a, b)"), "(call f [a b])");
    assert_eq!(shape("f((a, b))"), "(call f [(, a b)])");
    assert_eq!(shape("f(a = 1)"), "(call f [(= a 1)])");
    assert_eq!(shape("f(a ? b : c)"), "(call f [(? a b c)])");
    assert_eq!(parse("f(a)").span, Span::new(0, 4));
    assert!(!parse("f(a)").parenthesized);
    assert!(parse("(f(a))").parenthesized);
    assert_eq!(
        error("f(a").kind,
        ParseErrorKind::Unexpected {
            expected: "`)`",
            found: TokenKind::Eof,
        }
    );
}

#[test]
fn new_claims_the_first_argument_list_and_leaves_the_rest_to_the_call() {

    assert_eq!(shape("new a"), "(new a [])");
    assert_eq!(
        shape("new a()"),
        "(new a [])",
        "the same node, written two ways"
    );
    assert_eq!(shape("new a(1, 2)"), "(new a [1 2])");
    assert_eq!(
        shape("new a.b()"),
        "(new (. a b) [])",
        "the arguments are `new`'s"
    );
    assert_eq!(shape("new a.b.c()"), "(new (. (. a b) c) [])");
    assert_eq!(shape("new a[b]()"), "(new ([] a b) [])");

    assert_eq!(shape("new a()()"), "(call (new a []) [])");
    assert_eq!(shape("new a().b"), "(. (new a []) b)");
    assert_eq!(shape("new new a()()"), "(new (new a []) [])");
    assert_eq!(shape("new new a()"), "(new (new a []) [])");
    assert_eq!(parse("new a()").span, Span::new(0, 7));
    assert_eq!(parse("new a").span, Span::new(0, 5));
    assert!(!parse("new a").parenthesized);
    assert!(parse("(new a)").parenthesized);
}

#[test]
fn a_new_expression_refuses_the_bare_word_super() {

    assert_eq!(
        member_kind("class D extends B { constructor() { new super(); } }"),
        ParseErrorKind::NewOnSuper
    );
    assert_eq!(
        member_kind("class D extends B { constructor() { new super(1, 2); } }"),
        ParseErrorKind::NewOnSuper
    );
    assert!(parse_script("class D extends B { constructor() { new (super()); } }").is_ok());
    assert!(parse_script("class D extends B { constructor() { new super.x(); } }").is_ok());
    assert!(parse_script("class D extends B { constructor() { super(); } }").is_ok());

    assert_eq!(
        member_kind("class C { constructor() { new super(); } }"),
        ParseErrorKind::SuperCallOutsideDerivedConstructor
    );
}

#[test]
fn an_update_expression_will_not_reach_across_a_line_break() {
    assert_eq!(shape("++a"), "(pre++ a)");
    assert_eq!(shape("--a"), "(pre-- a)");
    assert_eq!(shape("a++"), "(post++ a)");
    assert_eq!(shape("a--"), "(post-- a)");
    assert_eq!(shape("a.b++"), "(post++ (. a b))");
    assert_eq!(shape("a[b]++"), "(post++ ([] a b))");
    assert_eq!(shape("a++ + b"), "(+ (post++ a) b)");
    assert_eq!(shape("++a + b"), "(+ (pre++ a) b)");

    assert_eq!(
        error("a\n++b").kind,
        ParseErrorKind::Unexpected {
            expected: "end of input",
            found: TokenKind::PlusPlus,
        },
        "`a` and `++b`, not `a++` and `b`"
    );

    assert_eq!(shape("a\t++"), "(post++ a)");
    assert_eq!(
        error("a /* comment */\n++b").kind,
        ParseErrorKind::Unexpected {
            expected: "end of input",
            found: TokenKind::PlusPlus,
        },
        "a comment containing a newline is a line terminator (§12.4)"
    );
    assert_eq!(
        shape("a /* comment */ ++"),
        "(post++ a)",
        "…and one that does not contain a newline is not"
    );

    for source in [
        "1++",
        "++1",
        "f()++",
        "++f()",
        "(a + b)++",
        "'x'++",
        "this++",
    ] {
        assert_eq!(
            error(source).kind,
            ParseErrorKind::InvalidAssignmentTarget,
            "on {source:?}"
        );
    }

    assert_eq!(shape("a++ ** b"), "(** (post++ a) b)");
    assert_eq!(shape("++a ** b"), "(** (pre++ a) b)");
    assert_eq!(error("-a ** b").kind, ParseErrorKind::ExponentiationOnUnary);

    assert_eq!(shape("a.b = 1"), "(= (. a b) 1)");
    assert_eq!(shape("a[b] = 1"), "(= ([] a b) 1)");
    assert_eq!(
        error("f() = 1").kind,
        ParseErrorKind::InvalidAssignmentTarget
    );
    assert!(!parse("a++").parenthesized);
    assert!(parse("(a++)").parenthesized);
    assert!(!parse("++a").parenthesized);
}

#[test]
fn an_argument_list_takes_a_spread_anywhere_in_it_and_no_elision_at_all() {
    assert_eq!(shape("f(...a)"), "(call f [(... a)])");
    assert_eq!(shape("f(a, ...b)"), "(call f [a (... b)])");

    assert_eq!(shape("f(...a, b)"), "(call f [(... a) b])");
    assert_eq!(shape("f(...a, ...b)"), "(call f [(... a) (... b)])");
    assert_eq!(shape("f(a, ...b, c)"), "(call f [a (... b) c])");

    assert_eq!(shape("f(...a,)"), "(call f [(... a)])");
    assert_eq!(shape("f(a,)"), "(call f [a])");

    for source in ["f(,)", "f(a,,b)", "f(,...a)", "f(...)"] {
        assert!(parse_expression(source).is_err(), "{source:?}");
    }

    assert_eq!(shape("f(...a.b)"), "(call f [(... (. a b))])");
    assert_eq!(shape("f(...(a, b))"), "(call f [(... (, a b))])");
    assert_eq!(shape("f(...a = b)"), "(call f [(... (= a b))])");

    assert_eq!(shape("new f(...a)"), "(new f [(... a)])");
    assert_eq!(
        shape("f(...a)(...b)"),
        "(call (call f [(... a)]) [(... b)])"
    );
    assert!(parse_expression("f(...a)`x`").is_ok());
}

#[test]
fn new_target_is_three_tokens_that_are_one_production() {
    assert_eq!(
        statements("function f() { new.target; }"),
        ["(fn f [] {new.target})"]
    );

    assert!(parse_script("function f() { new.Target; }").is_err());
    assert!(parse_script("function f() { new.taget; }").is_err());

    assert!(parse_script("function f() { new . target; }").is_ok());
    assert!(parse_script("function f() { new\n.\ntarget; }").is_ok());

    assert_eq!(
        member_kind("new.target;"),
        ParseErrorKind::NewTargetOutsideFunction
    );

    assert_eq!(
        member_kind("() => new.target;"),
        ParseErrorKind::NewTargetOutsideFunction
    );
    assert!(parse_script("function f() { () => new.target; }").is_ok());

    for source in [
        "function* g() { new.target; }",
        "({ m() { new.target; } });",
        "class C { m() { new.target; } }",
        "class C extends D { constructor() { new.target; } }",
    ] {
        assert!(parse_script(source).is_ok(), "{source:?}");
    }

    assert_eq!(
        shape("(function () { return new.target.a; })"),
        "(fn <anon> [] {(return (. new.target a))})"
    );
    for source in [
        "new.target();",
        "typeof new.target;",
        "new new.target;",
        "new.target`x`;",
        "[new.target];",
        "new.target?.a;",
    ] {
        assert!(
            parse_script(&format!("function f() {{ {source} }}")).is_ok(),
            "{source:?}"
        );
    }

    assert!(parse_script("function f() { new.target = 1; }").is_err());
    assert!(parse_script("function f() { new.target++; }").is_err());
}

#[test]
fn an_optional_chain_continues_with_plain_links_once_it_has_started() {
    assert_eq!(shape("a?.b"), "(?chain (?. a b))");
    assert_eq!(shape("a?.[b]"), "(?chain (?[] a b))");
    assert_eq!(shape("a?.(b)"), "(?chain (?call a [b]))");

    assert_eq!(shape("a?.b.c"), "(?chain (. (?. a b) c))");
    assert_eq!(shape("a?.[b][c]"), "(?chain ([] (?[] a b) c))");
    assert_eq!(shape("a?.(b)(c)"), "(?chain (call (?call a [b]) [c]))");
    assert_eq!(shape("a?.b(c)"), "(?chain (call (?. a b) [c]))");
    assert_eq!(shape("a?.b?.c"), "(?chain (?. (?. a b) c))");

    assert_eq!(shape("a.b?.c"), "(?chain (?. (. a b) c))");
    assert_eq!(shape("f()?.a"), "(?chain (?. (call f []) a))");

    assert_eq!(shape("(a?.b).c"), "(. (?chain (?. a b)) c)");

    assert!(parse_expression("a?.if").is_ok());
    assert!(parse_expression("a?.class").is_ok());

    assert!(parse_expression("a\n?.b").is_ok());
    assert!(parse_expression("a?.\nb").is_ok());

    assert_eq!(shape("a?.5:b"), "(? a 0.5 b)");
}

#[test]
fn an_optional_chain_is_neither_an_assignment_target_nor_something_new_can_take() {

    for source in [
        "a?.b = 1;",
        "a?.b.c = d;",
        "a?.[b] = c;",
        "a?.(b) = c;",
        "a?.b += 1;",
        "a?.b++;",
        "(a?.b) = c;",
        "(a?.b)++;",
        "[a?.b] = c;",
        "({a: a?.b} = c);",
        "for (a?.b of c);",
        "for (a?.b in c);",
    ] {
        assert!(parse_script(source).is_err(), "{source:?}");
    }

    assert!(parse_script("delete a?.b;").is_ok());
    assert!(parse_script("delete a?.b.c;").is_ok());

    assert_eq!(member_kind("new a?.b;"), ParseErrorKind::NewOnOptionalChain);
    assert_eq!(member_kind("new a?.b();"), ParseErrorKind::NewOnOptionalChain);

    assert!(parse_script("new (a?.b);").is_ok());
    assert!(parse_script("new (a?.b)();").is_ok());

    for source in [
        "a?.`x`;",
        "a?.b`x`;",
        "a.b?.`x`;",
        "a?.[b]`x`;",
        "a?.(b)`x`;",
        "a.b.c?.d`x`;",
    ] {
        assert_eq!(
            member_kind(source),
            ParseErrorKind::TaggedTemplateOnOptionalChain,
            "{source:?}"
        );
    }

    assert!(parse_script("(a?.b)`x`;").is_ok());

    for source in [
        "a?.b ?? c;",
        "a?.b || c;",
        "a?.b === c;",
        "a?.b instanceof c;",
        "!a?.b;",
        "a?.b ? c : d;",
        "f(a?.b);",
        "[a?.b];",
        "typeof a?.b;",
        "a?.b(...c);",
        "class C extends a?.b {}",
    ] {
        assert!(parse_script(source).is_ok(), "{source:?}");
    }

    assert!(parse_script("({ m() { super?.a; } });").is_err());
}

#[test]
fn an_import_call_takes_one_or_two_arguments_and_is_not_a_member_expression() {
    assert_eq!(shape("import(a)"), "(import a)");
    assert_eq!(shape("import(a, b)"), "(import a b)");

    assert_eq!(shape("import(a,)"), "(import a)");
    assert_eq!(shape("import(a, b,)"), "(import a b)");
    for source in [
        "import()",
        "import(...a)",
        "import(a, b, c)",
        "import(",
        "import(a,",
    ] {
        assert!(parse_expression(source).is_err(), "{source:?}");
    }

    assert_eq!(shape("import(a).b"), "(. (import a) b)");
    assert_eq!(shape("import(a)(b)"), "(call (import a) [b])");
    assert!(parse_script("import(a) + 1;").is_ok());
    assert!(parse_script("typeof import(a);").is_ok());
    assert!(parse_script("f(import(a));").is_ok());
    assert!(parse_script("import(import(a));").is_ok());

    assert_eq!(
        script_error("new import(a);").kind,
        ParseErrorKind::NewOnImportCall
    );

    assert!(parse_script("import(a);").is_ok());

    for source in ["import;", "import a;", "import 1;", "import"] {
        assert!(
            matches!(
                script_error(source).kind,
                ParseErrorKind::Unexpected {
                    expected: "`(` or `.`",
                    ..
                }
            ),
            "{source:?} failed with {:?}",
            script_error(source).kind
        );
    }
}

#[test]
fn import_meta_is_the_one_thing_here_that_needs_the_goal_symbol() {

    for source in [
        "import.meta;",
        "import.meta.a;",
        "function f() { import.meta; }",
        "class C { m() { import.meta; } }",
        "[import.meta];",
    ] {
        assert_eq!(
            script_error(source).kind,
            ParseErrorKind::ImportMetaOutsideModule,
            "{source:?}"
        );
    }

    assert!(parse_script("import.Meta;").is_err());
    assert!(parse_script("import.a;").is_err());
    assert_eq!(
        script_error("import . meta;").kind,
        ParseErrorKind::ImportMetaOutsideModule
    );
    assert_eq!(
        script_error("import\n.\nmeta;").kind,
        ParseErrorKind::ImportMetaOutsideModule
    );
}

fn method_kind(source: &str) -> ParseErrorKind {
    match parse_expression(source) {
        Err(err) => err.kind,
        Ok(expr) => panic!("{source:?} should not parse, got {expr:?}"),
    }
}

#[test]
fn a_method_is_a_property_whose_value_is_written_as_a_function() {
    assert_eq!(shape("({a() {}})"), "{(a (fn <anon> [] {}))}");
    assert_eq!(shape("({a(b) {}})"), "{(a (fn <anon> [b] {}))}");
    assert_eq!(shape("({a(b, c) {}})"), "{(a (fn <anon> [b c] {}))}");
    assert_eq!(shape("({a(...b) {}})"), "{(a (fn <anon> [(... b)] {}))}");
    assert_eq!(shape("({a(b = 1) {}})"), "{(a (fn <anon> [(= b 1)] {}))}");
    assert_eq!(shape("({a([b]) {}})"), "{(a (fn <anon> [[b]] {}))}");
    assert_eq!(
        shape("({a() { return 1; }})"),
        "{(a (fn <anon> [] {(return 1)}))}"
    );

    assert_eq!(shape("({if() {}})"), "{(if (fn <anon> [] {}))}");
    assert_eq!(shape("({1() {}})"), "{(n1 (fn <anon> [] {}))}");
    assert_eq!(shape("({[x]() {}})"), "{([x] (fn <anon> [] {}))}");

    assert_eq!(shape("({a: 1, b() {}})"), "{(a 1) (b (fn <anon> [] {}))}");
    assert_eq!(shape("({a() {}, b})"), "{(a (fn <anon> [] {})) b}");
}

#[test]
fn get_and_set_are_keywords_only_when_a_name_follows_them() {
    assert_eq!(shape("({get a() {}})"), "{(get a (fn <anon> [] {}))}");
    assert_eq!(shape("({set a(v) {}})"), "{(set a (fn <anon> [v] {}))}");
    assert_eq!(
        shape("({get a() {}, set a(v) {}})"),
        "{(get a (fn <anon> [] {})) (set a (fn <anon> [v] {}))}"
    );
    assert_eq!(shape("({get [x]() {}})"), "{(get [x] (fn <anon> [] {}))}");
    assert_eq!(shape("({get if() {}})"), "{(get if (fn <anon> [] {}))}");

    assert_eq!(shape("({get() {}})"), "{(get (fn <anon> [] {}))}");
    assert_eq!(shape("({set() {}})"), "{(set (fn <anon> [] {}))}");

    assert_eq!(shape("({get: 1, set: 2})"), "{(get 1) (set 2)}");
    assert_eq!(shape("({get, set})"), "{get set}");

    assert!(parse_expression(r"({\u0067et a() {}})").is_err());
}

#[test]
fn a_getter_takes_nothing_and_a_setter_takes_exactly_one() {

    assert_eq!(
        method_kind("({get a(b) {}})"),
        ParseErrorKind::AccessorParameterCount
    );
    assert_eq!(
        method_kind("({get a(...b) {}})"),
        ParseErrorKind::AccessorParameterCount
    );

    assert_eq!(
        method_kind("({set a() {}})"),
        ParseErrorKind::AccessorParameterCount
    );
    assert_eq!(
        method_kind("({set a(b, c) {}})"),
        ParseErrorKind::AccessorParameterCount
    );
    assert_eq!(
        method_kind("({set a(...b) {}})"),
        ParseErrorKind::AccessorParameterCount
    );
    assert!(parse_expression("({set a([b]) {}})").is_ok());
    assert!(parse_expression("({set a(b = 1) {}})").is_ok());
}

#[test]
fn a_methods_parameters_are_unique_where_a_functions_are_not() {

    assert_eq!(
        method_kind("({a(b, b) {}})"),
        ParseErrorKind::DuplicateParameterName
    );
    assert!(praxis::parser::parse_script("function f(b, b) {}").is_ok());

    assert_eq!(
        method_kind("({a(b) { let b; }})"),
        ParseErrorKind::ParameterRedeclaredInBody
    );
    assert_eq!(
        method_kind("({a(b = 1) { \"use strict\"; }})"),
        ParseErrorKind::UseStrictWithNonSimpleParameters
    );
    assert!(parse_expression("({a() { \"use strict\"; }})").is_ok());
    assert!(parse_expression("({a(b) { var b; }})").is_ok());
    assert!(parse_expression("({a(b) { let c; }})").is_ok());

    assert!(parse_expression("({a() { return; }})").is_ok());
    assert!(parse_expression("({a() { break; }})").is_err());
}

#[test]
fn no_method_however_truncated_can_panic() {
    for source in [
        "({a(",
        "({a()",
        "({a() {",
        "({get",
        "({get a",
        "({get a(",
        "({set a(",
        "({get a() {",
        "({*a(){}})",
        "({async a(){}})",
    ] {
        let _ = parse_expression(source);
    }

    for source in ["({*a() {}})", "({async a() {}})", "({async *a() {}})"] {
        assert!(parse_expression(source).is_ok(), "{source:?}");
    }
}

fn module_kind(source: &str) -> ParseErrorKind {
    match parse_module(source) {
        Err(err) => err.kind,
        Ok(module) => panic!("{source:?} should not parse, got {module:?}"),
    }
}

fn module_items(source: &str) -> usize {
    parse_module(source)
        .unwrap_or_else(|err| panic!("{source:?} should parse, got {:?}", err.kind))
        .body
        .len()
}

#[test]
fn the_goal_symbol_is_the_difference_and_every_part_of_it_shows() {

    assert_eq!(module_kind("with (a) {}"), ParseErrorKind::StrictWith);
    assert_eq!(module_kind("var a = 010;"), ParseErrorKind::StrictLegacyOctal);
    assert_eq!(module_kind("delete a;"), ParseErrorKind::StrictDeleteOfName);
    assert_eq!(module_kind("var yield;"), ParseErrorKind::StrictReservedWord);

    for source in ["with (a) {}", "var a = 010;", "delete a;", "var yield;"] {
        assert!(parse_script(source).is_ok(), "{source:?}");
    }

    assert!(parse_module("await a;").is_ok());
    assert!(parse_script("await a;").is_err());

    assert!(parse_module("var await;").is_err());
    assert!(parse_module("function f() { var await; }").is_err());
    assert!(parse_module("function f() { await a; }").is_err());
    assert!(parse_script("function f() { var await; }").is_ok());

    assert_eq!(
        module_kind("function f() {} function f() {}"),
        ParseErrorKind::DuplicateLexicalBinding
    );
    assert!(parse_script("function f() {} function f() {}").is_ok());

    assert!(parse_module("var a; var a;").is_ok());
    assert_eq!(
        module_kind("let a; let a;"),
        ParseErrorKind::DuplicateLexicalBinding
    );
    assert_eq!(module_kind("return 1;"), ParseErrorKind::ReturnOutsideFunction);
    assert_eq!(
        module_kind("new.target;"),
        ParseErrorKind::NewTargetOutsideFunction
    );
    assert_eq!(module_kind("super.a;"), ParseErrorKind::SuperPropertyOutsideMethod);
    assert_eq!(module_kind("break;"), ParseErrorKind::BreakOutsideLoop);

    assert!(parse_module("this;").is_ok());

    assert!(parse_module("<!-- a").is_err());
}

#[test]
fn every_shape_of_import_clause_and_none_of_the_shapes_that_are_not() {
    assert_eq!(module_items("import \"a\";"), 1);
    for source in [
        "import a from \"b\";",
        "import * as a from \"b\";",
        "import {} from \"b\";",
        "import {a} from \"b\";",
        "import {a, b} from \"c\";",
        "import {a,} from \"b\";",
        "import {a as b} from \"c\";",
        "import {a as b, c} from \"d\";",
        "import a, {b} from \"c\";",
        "import a, * as b from \"c\";",
        "import {default as a} from \"b\";",
        "import {\"a\" as b} from \"c\";",
    ] {
        assert!(parse_module(source).is_ok(), "{source:?}");
    }

    assert!(parse_module("import {if as a} from \"b\";").is_ok());
    assert!(parse_module("import {if} from \"b\";").is_err());

    assert_eq!(
        module_kind("import {\"a\"} from \"b\";"),
        ParseErrorKind::StringImportWithoutAlias
    );

    for source in [
        "import from \"b\";",
        "import * from \"b\";",
        "import {a} \"b\";",
        "import a \"b\";",
        "import a, b from \"c\";",
        "import;",
        "import {,} from \"b\";",
        "import {a,,b} from \"b\";",
        "import {a as} from \"b\";",
    ] {
        assert!(parse_module(source).is_err(), "{source:?}");
    }

    for source in [
        "import a from b;",
        "import a from 1;",
        "import a from `b`;",
        "import \"a\" with { type: \"json\" }; import b from c;",
    ] {
        assert!(
            matches!(
                module_kind(source),
                ParseErrorKind::Unexpected {
                    expected: "a module specifier",
                    ..
                }
            ),
            "{source:?} failed with {:?}",
            module_kind(source)
        );
    }

    for (source, expected) in [
        ("import a bogus \"c\";", "`from`"),
        ("import * bogus a from \"b\";", "`as`"),
        ("import {a bogus b} from \"c\";", "`}`"),
    ] {
        assert!(
            matches!(
                module_kind(source),
                ParseErrorKind::Unexpected { expected: found, .. } if found == expected
            ),
            "{source:?} failed with {:?}",
            module_kind(source)
        );
    }

    assert_eq!(module_items("import a from \"b\""), 1);
    assert_eq!(module_items("import \"a\"\nimport \"b\""), 2);
}

#[test]
fn an_import_is_a_module_item_and_may_stand_nowhere_smaller() {

    for source in [
        "{ import a from \"b\"; }",
        "if (a) import b from \"c\";",
        "function f() { import a from \"b\"; }",
        "for (;;) import a from \"b\";",
        "label: import a from \"b\";",
    ] {
        assert!(parse_module(source).is_err(), "{source:?}");
    }

    assert!(parse_script("import a from \"b\";").is_err());
}

#[test]
fn an_imported_binding_is_lexical_and_is_read_under_the_module_rules() {

    assert_eq!(
        module_kind("import a from \"b\"; var a;"),
        ParseErrorKind::ConflictingVarAndLexicalDeclaration
    );

    for source in [
        "import a from \"b\"; let a;",
        "import a from \"b\"; function a() {}",
        "import a from \"b\"; class a {}",
        "import a from \"b\"; import a from \"c\";",
        "import {a, a} from \"b\";",
        "import a, {a} from \"b\";",
        "import {a as b, c as b} from \"d\";",
    ] {
        assert_eq!(
            module_kind(source),
            ParseErrorKind::DuplicateLexicalBinding,
            "{source:?}"
        );
    }

    assert!(parse_module("import a from \"b\"; { let a; }").is_ok());

    assert!(parse_module("import a from \"b\"; a = 1;").is_ok());

    for source in [
        "import await from \"b\";",
        "import {await} from \"b\";",
        "import {a as await} from \"b\";",
        "import yield from \"b\";",
    ] {
        assert!(parse_module(source).is_err(), "{source:?}");
    }

    assert_eq!(
        module_kind("import eval from \"b\";"),
        ParseErrorKind::StrictEvalOrArguments
    );
    assert_eq!(
        module_kind("import {eval} from \"b\";"),
        ParseErrorKind::StrictEvalOrArguments
    );
    assert_eq!(
        module_kind("import {arguments} from \"b\";"),
        ParseErrorKind::StrictEvalOrArguments
    );
    assert!(parse_module("import {eval as a} from \"b\";").is_ok());

    assert!(parse_module("import {await as a} from \"b\";").is_ok());
}

#[test]
fn from_and_as_are_contextual_so_they_are_still_names() {

    assert_eq!(module_items("import from from \"b\";"), 1);
    assert!(parse_module("import * as from from \"b\";").is_ok());
    assert!(parse_module("import {from} from \"b\";").is_ok());
    assert!(parse_module("import {as as as} from \"b\";").is_ok());
    assert!(parse_module("var from = 1; from;").is_ok());
}

#[test]
fn a_with_clause_takes_string_values_and_nothing_else() {
    for source in [
        "import a from \"b\" with { type: \"json\" };",
        "import a from \"b\" with {};",
        "import \"a\" with { type: \"json\" };",
        "import a from \"b\" with { \"type\": \"json\" };",
        "import a from \"b\" with { type: \"json\", };",
        "import a from \"b\" with { type: \"json\", other: \"x\" };",
    ] {
        assert!(parse_module(source).is_ok(), "{source:?}");
    }

    for source in [
        "import a from \"b\" with { type: json };",
        "import a from \"b\" with { type: 1 };",
        "import a from \"b\" with { type: `json` };",
    ] {
        assert!(
            matches!(
                module_kind(source),
                ParseErrorKind::Unexpected {
                    expected: "a string",
                    ..
                }
            ),
            "{source:?} failed with {:?}",
            module_kind(source)
        );
    }

    assert!(parse_module("import a from \"b\"\nwith { type: \"json\" };").is_ok());
}

#[test]
fn import_followed_by_a_paren_or_a_dot_is_an_expression_and_not_a_declaration() {

    for source in [
        "import(\"a\");",
        "import(\"a\", b);",
        "import(\"a\").then(b);",
        "import.meta;",
        "import.meta.url;",
        "export default import.meta;",
        "function f() { return import.meta; }",
    ] {
        assert!(parse_module(source).is_ok(), "{source:?}");
    }

    assert!(parse_module("import a from \"b\";").is_ok());
    assert!(parse_module("{ import(\"a\"); }").is_ok());
    assert!(parse_module("{ import a from \"b\"; }").is_err());

    assert!(parse_script("import(\"a\");").is_ok());
    assert!(parse_script("import.meta;").is_err());

    assert!(parse_module("import.meta = 1;").is_err());
    assert!(parse_module("import.meta++;").is_err());

    for source in [
        "import.a;",
        "import.Meta;",
        "import.metaa;",
        "import.if;",
        "import.\\u006deta;",
        "import.\"meta\";",
    ] {
        assert!(parse_module(source).is_err(), "{source:?}");
    }
    assert!(parse_module("import.meta;").is_ok());
}

#[test]
fn no_module_however_truncated_can_panic() {
    let cases = [
        "import",
        "import ",
        "import a",
        "import a from",
        "import a from \"",
        "import {",
        "import {a",
        "import {a as",
        "import *",
        "import * as",
        "import a, ",
        "import \"a\" with",
        "import \"a\" with {",
        "import \"a\" with { a",
        "import \"a\" with { a:",
        "",
    ];
    for source in &cases {
        let _ = parse_module(source);
    }

    assert_eq!(module_items(""), 0);
}

fn object_literal_span_of(source: &str, text: &str) -> praxis::span::Span {
    let at = source.find(text).expect("the text is in the source") as usize;
    praxis::span::Span::new(at, at + text.len() as usize)
}

fn object_literal_error_kind(source: &str) -> ParseErrorKind {
    match parse_expression(source) {
        Err(err) => err.kind,
        Ok(expr) => panic!("{source:?} should not parse, got {expr:?}"),
    }
}

#[test]
fn a_duplicate_proto_is_refused_in_a_literal_and_allowed_in_the_pattern_one_covers() {

    assert_eq!(
        object_literal_error_kind("({ __proto__: x, __proto__: y })"),
        ParseErrorKind::DuplicateProto
    );
    assert!(parse_script("({ __proto__: x, __proto__: y } = {});").is_ok());
    assert!(parse_script("[{ __proto__: x, __proto__: y }] = [];").is_ok());
    assert!(parse_script("({ a: { __proto__: x, __proto__: y } } = {});").is_ok());

    assert!(parse_script("({ __proto__: x, __proto__: y }) => 0;").is_ok());

    assert!(parse_script("var { __proto__: x, __proto__: y } = {};").is_ok());
    assert!(parse_script("function f({ __proto__: x, __proto__: y }) {}").is_ok());

    assert_eq!(
        object_literal_error_kind("f({ __proto__: 1, __proto__: 2 })"),
        ParseErrorKind::DuplicateProto
    );
    assert_eq!(
        object_literal_error_kind("[{ __proto__: 1, __proto__: 2 }]"),
        ParseErrorKind::DuplicateProto
    );

    assert!(
        parse_script(
            "({ __proto__: x, __proto__: y } = {}); ({ __proto__: 1, __proto__: 2 });"
        )
        .is_err()
    );
    assert!(
        parse_script(
            "({ __proto__: 1, __proto__: 2 }); ({ __proto__: a, __proto__: b } = {});"
        )
        .is_err()
    );

    assert!(parse_script("({ __proto__: x, ...__proto__ });").is_ok());
    assert!(parse_script("({ __proto__: x, [__proto__]: y });").is_ok());
    assert!(parse_script("({ __proto__, __proto__: y });").is_ok());

    assert_eq!(
        object_literal_error_kind("({ \"__proto__\": x, __proto__: y })"),
        ParseErrorKind::DuplicateProto
    );
}

#[test]
fn a_refinement_discards_the_rules_it_covers_and_no_others() {

    assert!(parse_script("({ b = 1 } = x);").is_ok());
    assert!(parse_script("({ a: { b = 1 } } = x);").is_ok());
    assert!(parse_script("[{ b = 1 }] = x;").is_ok());
    assert!(parse_script("({ __proto__: x, __proto__: y } = {});").is_ok());

    assert!(parse_script("({ a = { b = 1 } } = x);").is_err());
    assert!(parse_script("({ a: q = { b = 1 } } = x);").is_err());
    assert!(parse_script("[a = { b = 1 }] = x;").is_err());
    assert!(parse_script("({ a = { __proto__: 1, __proto__: 2 } } = x);").is_err());

    assert!(parse_script("({ [{ b = 1 }.c]: q } = x);").is_err());

    assert!(parse_script("(f({ b = 1 }), ({ a } = x));").is_err());
    assert!(parse_script("[{ b = 1 }] = x, ({ c = 2 });").is_err());

    assert!(parse_script("({ a = ({ b = 1 } = y) } = x);").is_ok());

    assert!(parse_script("x = { a = c } = d;").is_ok());
    assert!(parse_script("({ b = { a = c } = d } = e);").is_ok());
    assert!(parse_script("[b = { a = c } = d] = e;").is_ok());
    assert!(parse_script("({ b = { a = c } = d }) => 1;").is_ok());
    assert!(
        parse_script("let f = ({ a = (({ b = { a = c } = { a: 1 } }) => 1)({}) }, c) => 1;")
            .is_ok()
    );

    assert!(parse_script("({ a = 1 }) => b;").is_ok());
    assert!(parse_script("({ a = { b = 1 } }) => 0;").is_err());
    assert!(parse_script("var { a = { b = 1 } } = x;").is_err());
    assert!(parse_script("function f({ a = { b = 1 } }) {}").is_err());

    assert_eq!(
        object_literal_error_kind("f({ a = 1 })"),
        ParseErrorKind::ShorthandPropertyWithInitializer
    );
    assert_eq!(
        object_literal_error_kind("({ b = 1 })"),
        ParseErrorKind::ShorthandPropertyWithInitializer
    );

    assert!(parse_script("[...a,]; [b] = c;").is_ok());

    let source = "f({ b = 1 }, { c = 2 })";
    assert_eq!(error(source).span, object_literal_span_of(source, "b"));
    let nested = "({ q: { c = 2 }, r: 0 }, { b = 1 })";
    assert_eq!(error(nested).span, object_literal_span_of(nested, "c"));
}

#[test]
fn a_bigint_names_a_property_the_way_any_other_numeric_literal_does() {

    assert_eq!(shape("({1n: 2})"), "{(1n 2)}");
    assert_eq!(shape("({0x1Fn: 2})"), "{(0x1Fn 2)}");

    assert_eq!(shape("({get 1n(){}})"), "{(get 1n (fn <anon> [] {}))}");
    assert_eq!(shape("({set 1n(v){}})"), "{(set 1n (fn <anon> [v] {}))}");
    assert_eq!(shape("({async 1n(){}})"), "{(1n (async-fn <anon> [] {}))}");
    assert_eq!(
        shape("({async *1n(){}})"),
        "{(1n (async-fn* <anon> [] {}))}"
    );
    assert_eq!(shape("({*1n(){}})"), "{(1n (fn* <anon> [] {}))}");

    assert_eq!(shape("({get: 1n})"), "{(get 1n)}");

    assert_eq!(shape("({1n: 1, 1n: 2})"), "{(1n 1) (1n 2)}");
    assert_eq!(shape("({1n: 1, __proto__: 2})"), "{(1n 1) (__proto__ 2)}");

    assert_eq!(
        object_literal_error_kind("({1n})"),
        ParseErrorKind::Unexpected {
            expected: "`:`",
            found: praxis::lexer::TokenKind::RBrace,
        }
    );
}
#[test]
fn a_property_list_takes_a_trailing_comma_and_never_an_empty_slot() {
    assert_eq!(shape("({})"), "{}");
    assert_eq!(shape("({a: 1})"), "{(a 1)}");
    assert_eq!(shape("({a: 1, b: 2})"), "{(a 1) (b 2)}");
    assert_eq!(shape("({a: 1, })"), "{(a 1)}");
    assert_eq!(shape("({a: 1, b: 2, })"), "{(a 1) (b 2)}");

    assert!(parse_expression("({, })").is_err());
    assert!(parse_expression("({a: 1, , })").is_err());
    assert!(parse_expression("({a: 1 b: 2})").is_err());
    assert!(parse_expression("({a:: 1})").is_err());
    assert_eq!(shape("[, ]"), "[<hole>]", "…where an array counts one");
}

#[test]
fn a_key_may_be_any_identifier_name_and_shorthand_may_not() {
    assert_eq!(shape("({a: 1})"), "{(a 1)}");
    assert_eq!(shape("({'a': 1})"), "{(s\"a\" 1)}");
    assert_eq!(shape("({1: 2})"), "{(n1 2)}");
    assert_eq!(shape("({[x]: 1})"), "{([x] 1)}");
    assert_eq!(shape("({[x + y]: 1})"), "{([(+ x y)] 1)}");

    assert_eq!(shape("({if: 1})"), "{(if 1)}");
    assert_eq!(shape("({class: 1, new: 2})"), "{(class 1) (new 2)}");
    assert_eq!(
        shape("({get: 1, set: 2, async: 3})"),
        "{(get 1) (set 2) (async 3)}"
    );

    assert_eq!(shape("({a})"), "{a}");
    assert_eq!(shape("({a, b})"), "{a b}");
    assert_eq!(shape("({a, })"), "{a}");
    assert_eq!(shape("({a, b: 2})"), "{a (b 2)}");
    assert!(parse_expression("({if})").is_err());
    assert!(parse_expression("({1})").is_err());
    assert!(parse_expression("({'a'})").is_err());

    assert_eq!(shape("({1e3: 0})"), "{(n1000 0)}");
    assert_eq!(shape("({1.0: 0})"), "{(n1 0)}");
}

#[test]
fn a_spread_stands_where_any_other_property_would() {
    assert_eq!(shape("({...a})"), "{(... a)}");
    assert_eq!(shape("({...a, b: 1})"), "{(... a) (b 1)}");
    assert_eq!(shape("({a: 1, ...b})"), "{(a 1) (... b)}");
    assert_eq!(shape("({...a, ...b})"), "{(... a) (... b)}");
    assert_eq!(shape("({...a, })"), "{(... a)}");
    assert!(parse_expression("({...})").is_err());
}

#[test]
fn proto_may_be_written_twice_unless_both_are_the_same_production() {

    assert_eq!(
        object_literal_error_kind("({__proto__: 1, __proto__: 2})"),
        ParseErrorKind::DuplicateProto
    );
    assert_eq!(
        object_literal_error_kind("({'__proto__': 1, __proto__: 2})"),
        ParseErrorKind::DuplicateProto,
        "a StringLiteral is a PropertyName too"
    );
    assert_eq!(
        object_literal_error_kind("({__proto__: 1, b: 2, __proto__: 3})"),
        ParseErrorKind::DuplicateProto
    );

    assert!(parse_expression("({__proto__: 1})").is_ok());
    assert!(parse_expression("({__proto__: 1, ['__proto__']: 2})").is_ok());
    assert!(parse_expression("({__proto__: 1, __proto__})").is_ok());
    assert!(parse_expression("({__proto__, __proto__})").is_ok());
    assert!(parse_expression("({__proto__: 1, ...__proto__})").is_ok());

    assert!(parse_expression("({_proto_: 1, _proto_: 2})").is_ok());
    assert!(
        parse_expression("({a: 1, a: 2})").is_ok(),
        "only `__proto__` is special"
    );

    let source = "({__proto__: 1, __proto__: 22})";
    match parse_expression(source) {
        Err(err) => assert_eq!(err.span.slice(source), Some("22")),
        Ok(expr) => panic!("{expr:?}"),
    }
}

#[test]
fn an_object_is_a_value_here_and_a_home_for_methods_but_not_patterns() {

    assert_eq!(
        object_literal_error_kind("({a = 1})"),
        ParseErrorKind::ShorthandPropertyWithInitializer
    );
    assert_eq!(
        object_literal_error_kind("[{a = 1}]"),
        ParseErrorKind::ShorthandPropertyWithInitializer,
        "an open literal defers the question; a closed one settles it"
    );

    for source in ["({a} = b);", "({a: b} = c);", "({} = b);", "({a = 1} = b);"] {
        assert!(parse_script(source).is_ok(), "{source:?}");
    }

    for source in [
        "({a() {}})",
        "({get a() {}})",
        "({set a(v) {}})",
        "({*a() {}})",
        "({async a() {}})",
        "({async *a() {}})",
    ] {
        assert!(parse_expression(source).is_ok(), "{source:?}");
    }

    assert!(parse_script("a = {b: 1};").is_ok());
    assert!(parse_script("f({a: 1}, {b: 2});").is_ok());
    assert!(parse_script("({a: 1}).a;").is_ok());

    assert_eq!(statements("{}"), ["{}"]);
    assert_eq!(statements("({})"), ["{}"]);
}

#[test]
fn no_object_however_truncated_can_panic() {
    let cases = [
        "({".to_string(),
        "({a".to_string(),
        "({a:".to_string(),
        "({a: 1,".to_string(),
        "({[".to_string(),
        "({...".to_string(),
        "({a: ".repeat(10_000),
        "({".repeat(10_000),
        format!("({{{}}})", "a: 1,".repeat(100_000)),
        format!("({{{}}})", "__proto__: 1,".repeat(1_000)),
    ];
    for source in &cases {
        let _ = parse_expression(source);
    }

    assert_eq!(
        object_literal_error_kind(&"({".repeat(10_000)),
        ParseErrorKind::Unexpected {
            expected: "a property name",
            found: praxis::lexer::TokenKind::LParen,
        }
    );
    assert_eq!(
        object_literal_error_kind(&"({a: ".repeat(10_000)),
        ParseErrorKind::TooDeeplyNested
    );
    assert_eq!(
        object_literal_error_kind(&format!("({{{}}})", "__proto__: 1,".repeat(1_000))),
        ParseErrorKind::DuplicateProto
    );
}

fn pattern_error_kind(source: &str) -> ParseErrorKind {
    match parse_expression(source) {
        Err(err) => err.kind,
        Ok(expr) => panic!("{source:?} should not parse, got {expr:?}"),
    }
}

#[test]
fn a_name_a_pattern_binds_or_assigns_to_is_asked_the_same_question_a_plain_one_is() {

    let refused = [

        r#""use strict"; ({eval} = x);"#,
        r#""use strict"; ({arguments} = x);"#,
        r#""use strict"; ({eval = 1} = x);"#,
        r#""use strict"; [eval] = x;"#,
        r#""use strict"; ({a: eval} = x);"#,
        r#""use strict"; [...eval] = x;"#,
        r#""use strict"; ({...eval} = x);"#,

        r#""use strict"; [[eval]] = x;"#,
        r#""use strict"; ({a: {b: eval}} = x);"#,

        r#""use strict"; var {eval} = x;"#,
        r#""use strict"; var {eval = 1} = x;"#,
        r#""use strict"; try {} catch ({eval}) {}"#,

        r#""use strict"; ({eval}) => 0;"#,
        r#""use strict"; ({eval = 1}) => 0;"#,

        r#""use strict"; for (eval in x);"#,
        r#""use strict"; for (eval of x);"#,
        r#""use strict"; for ({eval} of x);"#,
        r#""use strict"; for (var {eval} of x);"#,

        r#""use strict"; ({yield} = x);"#,
        r#""use strict"; var {public} = x;"#,
    ];
    for source in refused {
        assert!(
            parse_script(source).is_err(),
            "{source:?} should be refused in strict code"
        );
    }

    assert!(parse_script(r#""use strict"; ({eval});"#).is_ok());
    assert!(parse_script(r#""use strict"; ({a: eval});"#).is_ok());
    assert!(parse_script(r#""use strict"; x = eval;"#).is_ok());

    assert!(parse_script(r#""use strict"; [eval.b] = x;"#).is_ok());
    assert!(parse_script(r#""use strict"; ({a: eval.b} = x);"#).is_ok());

    assert!(parse_script(r#""use strict"; ({eval: a} = x);"#).is_ok());

    for source in [
        "({eval} = x);",
        "var {eval} = x;",
        "[eval] = x;",
        "({eval}) => 0;",
        "for (eval in x);",
    ] {
        assert!(parse_script(source).is_ok(), "{source:?} is legal sloppy");
    }
}

#[test]
fn an_array_literal_before_an_equals_is_a_pattern() {
    assert_eq!(shape("[a] = b"), "(= [a] b)");
    assert_eq!(shape("[a, b] = c"), "(= [a b] c)");
    assert_eq!(shape("[] = b"), "(= [] b)");
    assert_eq!(shape("[a.b] = c"), "(= [(. a b)] c)");
    assert_eq!(shape("[a[0]] = c"), "(= [([] a 0)] c)");

    assert_eq!(shape("[, a] = b"), "(= [<hole> a] b)");
    assert_eq!(shape("[a, ] = b"), "(= [a] b)");

    assert_eq!(shape("[a = 1] = b"), "(= [(= a 1)] b)");
    assert_eq!(shape("[a.b = 1] = c"), "(= [(= (. a b) 1)] c)");

    assert_eq!(
        pattern_error_kind("[a += 1] = b"),
        ParseErrorKind::InvalidDestructuringTarget
    );

    assert_eq!(shape("[[a]] = b"), "(= [[a]] b)");
    assert_eq!(shape("[{a}] = b"), "(= [{(a a)}] b)");
    assert_eq!(shape("[[[a]]] = b"), "(= [[[a]]] b)");
}

#[test]
fn an_object_literal_before_an_equals_is_a_pattern() {
    assert_eq!(shape("({} = b)"), "(= {} b)");
    assert_eq!(shape("({a} = b)"), "(= {(a a)} b)");
    assert_eq!(shape("({a, b} = c)"), "(= {(a a) (b b)} c)");
    assert_eq!(shape("({a: b} = c)"), "(= {(a b)} c)");
    assert_eq!(shape("({a: b.c} = d)"), "(= {(a (. b c))} d)");
    assert_eq!(shape("({[x]: a} = b)"), "(= {([x] a)} b)");
    assert_eq!(shape("({1: a} = b)"), "(= {(n1 a)} b)");
    assert_eq!(shape("({a: b = 1} = c)"), "(= {(a (= b 1))} c)");
    assert_eq!(shape("({a: [b]} = c)"), "(= {(a [b])} c)");

    assert_eq!(shape("({a = 1} = b)"), "(= {(a (= a 1))} b)");

    assert_eq!(shape("[{a = 1}] = b"), "(= [{(a (= a 1))}] b)");
    assert_eq!(shape("[[{a = 1}]] = b"), "(= [[{(a (= a 1))}]] b)");
    assert_eq!(shape("({a: {b = 1}} = c)"), "(= {(a {(b (= b 1))})} c)");
    assert_eq!(shape("({a = 1, b} = c)"), "(= {(a (= a 1)) (b b)} c)");

    assert_eq!(
        pattern_error_kind("({a: 1} = b)"),
        ParseErrorKind::InvalidDestructuringTarget
    );
}

#[test]
fn a_rest_element_is_last_and_an_objects_may_not_be_a_pattern() {
    assert_eq!(shape("[...a] = b"), "(= [(... a)] b)");
    assert_eq!(shape("[a, ...b] = c"), "(= [a (... b)] c)");
    assert_eq!(shape("[...a.b] = c"), "(= [(... (. a b))] c)");
    assert_eq!(shape("({...a} = b)"), "(= {(... a)} b)");
    assert_eq!(shape("({a, ...b} = c)"), "(= {(a a) (... b)} c)");
    assert_eq!(shape("({...a.b} = c)"), "(= {(... (. a b))} c)");

    assert_eq!(
        pattern_error_kind("[...a, b] = c"),
        ParseErrorKind::RestElementMustBeLast
    );
    assert_eq!(
        pattern_error_kind("[...a, ] = c"),
        ParseErrorKind::RestElementMustBeLast
    );
    assert_eq!(
        pattern_error_kind("({...a, b} = c)"),
        ParseErrorKind::RestElementMustBeLast
    );

    assert_eq!(
        pattern_error_kind("[...a = 1] = b"),
        ParseErrorKind::RestElementWithInitializer
    );

    assert_eq!(shape("[...[a]] = b"), "(= [(... [a])] b)");
    assert_eq!(shape("[...{a}] = b"), "(= [(... {(a a)})] b)");
    assert_eq!(
        pattern_error_kind("({...[a]} = b)"),
        ParseErrorKind::RestTargetMayNotBePattern
    );
    assert_eq!(
        pattern_error_kind("({...{a}} = b)"),
        ParseErrorKind::RestTargetMayNotBePattern
    );

    assert!(parse_expression("[...a, b]").is_ok());
    assert!(parse_expression("[...a, ]").is_ok());
    assert!(parse_expression("[...a = 1]").is_ok());
    assert!(parse_expression("({...[a]})").is_ok());
}

#[test]
fn a_pattern_is_refused_where_only_an_equals_can_refine_one() {

    assert_eq!(
        pattern_error_kind("[a] += b"),
        ParseErrorKind::InvalidAssignmentTarget
    );
    assert_eq!(
        pattern_error_kind("[a] ||= b"),
        ParseErrorKind::InvalidAssignmentTarget
    );
    assert_eq!(
        pattern_error_kind("({a} += b)"),
        ParseErrorKind::InvalidAssignmentTarget
    );

    assert_eq!(
        pattern_error_kind("([a]) = b"),
        ParseErrorKind::InvalidAssignmentTarget
    );
    assert_eq!(
        pattern_error_kind("({a}) = b"),
        ParseErrorKind::InvalidAssignmentTarget
    );

    assert_eq!(
        pattern_error_kind("[1] = b"),
        ParseErrorKind::InvalidDestructuringTarget
    );
    assert_eq!(
        pattern_error_kind("[a + b] = c"),
        ParseErrorKind::InvalidDestructuringTarget
    );
    assert_eq!(
        pattern_error_kind("[f()] = b"),
        ParseErrorKind::InvalidDestructuringTarget
    );
    assert_eq!(
        pattern_error_kind("f() = b"),
        ParseErrorKind::InvalidAssignmentTarget
    );

    assert!(parse_expression("[1] == b").is_ok());
}

#[test]
fn a_for_in_or_for_of_target_is_refined_the_same_way() {
    assert_eq!(statements("for ([a] of b);"), ["(for-of [a] b <empty>)"]);
    assert_eq!(
        statements("for ({a} of b);"),
        ["(for-of {(a a)} b <empty>)"]
    );
    assert_eq!(statements("for ([a] in b);"), ["(for-in [a] b <empty>)"]);
    assert_eq!(
        statements("for ([a = 1] of b);"),
        ["(for-of [(= a 1)] b <empty>)"]
    );
    assert_eq!(
        statements("for ([a, ...b] of c);"),
        ["(for-of [a (... b)] c <empty>)"]
    );
    assert!(parse_script("for ([1] of b);").is_err());
    assert!(parse_script("for (([a]) of b);").is_err());
}

#[test]
fn no_pattern_however_odd_can_panic() {
    let cases = [
        "[a] = ".to_string(),
        "[...".to_string(),
        "({...} = b)".to_string(),
        "[[[[a]]]] = b".to_string(),
        format!("{}a{} = b", "[".repeat(10_000), "]".repeat(10_000)),
        format!("[{}] = b", "a, ".repeat(100_000)),
    ];
    for source in &cases {
        let _ = parse_expression(source);
    }

    assert_eq!(
        pattern_error_kind(&format!(
            "{}a{} = b",
            "[".repeat(10_000),
            "]".repeat(10_000)
        )),
        ParseErrorKind::TooDeeplyNested
    );

    assert!(parse_expression(&format!("[{}] = b", "a, ".repeat(10_000))).is_ok());
}
