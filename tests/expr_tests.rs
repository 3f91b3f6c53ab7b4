use lox_front::expr::{
    Assign, Binary, Call, Expr, Get, Grouping, Literal, Logical, SetField, Super, This, Unary,
    Variable, Visitor,
};
use lox_front::token::{Object, Token, TokenType};

fn tok(type_: TokenType, lexeme: &str) -> Token {
    Token::new(type_, lexeme.to_string(), None, 1)
}

fn num(n: i64) -> Expr {
    Expr::Literal(Literal::new(Object::Num(n)))
}

fn name(s: &str) -> Token {
    tok(TokenType::IDENTIFIER, s)
}

/// Answers with its tag in the method it targets, and fails in all others.
struct Sentinel {
    target: &'static str,
}

impl Sentinel {
    fn answer(&self, method: &'static str) -> Result<&'static str, String> {
        if method == self.target {
            Ok(method)
        } else {
            Err(format!("{} reached instead of {}", method, self.target))
        }
    }
}

impl Visitor<&'static str, String> for Sentinel {
    fn visit_assign_expr(&self, _: &Assign) -> Result<&'static str, String> {
        self.answer("assign")
    }
    fn visit_binary_expr(&self, _: &Binary) -> Result<&'static str, String> {
        self.answer("binary")
    }
    fn visit_call_expr(&self, _: &Call) -> Result<&'static str, String> {
        self.answer("call")
    }
    fn visit_get_expr(&self, _: &Get) -> Result<&'static str, String> {
        self.answer("get")
    }
    fn visit_group_expr(&self, _: &Grouping) -> Result<&'static str, String> {
        self.answer("group")
    }
    fn visit_literal_expr(&self, _: &Literal) -> Result<&'static str, String> {
        self.answer("literal")
    }
    fn visit_logical_expr(&self, _: &Logical) -> Result<&'static str, String> {
        self.answer("logical")
    }
    fn visit_set_expr(&self, _: &SetField) -> Result<&'static str, String> {
        self.answer("set")
    }
    fn visit_super_expr(&self, _: &Super) -> Result<&'static str, String> {
        self.answer("super")
    }
    fn visit_this_expr(&self, _: &This) -> Result<&'static str, String> {
        self.answer("this")
    }
    fn visit_unary_expr(&self, _: &Unary) -> Result<&'static str, String> {
        self.answer("unary")
    }
    fn visit_variable_expr(&self, _: &Variable) -> Result<&'static str, String> {
        self.answer("variable")
    }
}

fn one_of_each() -> Vec<(&'static str, Expr)> {
    vec![
        ("assign", Expr::Assign(Assign::new(name("a"), Box::new(num(1))))),
        ("binary", Expr::Binary(Binary::new(Box::new(num(1)), tok(TokenType::PLUS, "+"), Box::new(num(2))))),
        ("call", Expr::Call(Call::new(Box::new(Expr::Variable(Variable::new(name("f")))), tok(TokenType::RIGHT_PAREN, ")"), vec![num(1), num(2)]))),
        ("get", Expr::Get(Get::new(Box::new(Expr::This(This::new(tok(TokenType::THIS, "this")))), name("x")))),
        ("group", Expr::Grouping(Grouping::new(Box::new(num(3))))),
        ("literal", num(4)),
        ("logical", Expr::Logical(Logical::new(Box::new(num(1)), tok(TokenType::OR, "or"), Box::new(num(0))))),
        ("set", Expr::SetField(SetField::new(Box::new(Expr::Variable(Variable::new(name("o")))), name("x"), Box::new(num(5))))),
        ("super", Expr::Super(Super::new(tok(TokenType::SUPER, "super"), name("init")))),
        ("this", Expr::This(This::new(tok(TokenType::THIS, "this")))),
        ("unary", Expr::Unary(Unary::new(tok(TokenType::MINUS, "-"), Box::new(num(6))))),
        ("variable", Expr::Variable(Variable::new(name("v")))),
    ]
}

#[test]
fn dispatch_routes_each_variant() {
    for (tag, e) in one_of_each() {
        let visitor = Sentinel { target: tag };
        assert_eq!(e.accept(&visitor), Ok(tag));
        for (other, _) in one_of_each() {
            if other != tag {
                assert!(e.accept(&Sentinel { target: other }).is_err());
            }
        }
    }
}

#[test]
fn node_accept_matches_enum_accept() {
    let b = Binary::new(Box::new(num(1)), tok(TokenType::STAR, "*"), Box::new(num(2)));
    assert_eq!(b.accept(&Sentinel { target: "binary" }), Ok("binary"));
    let v = Variable::new(name("v"));
    assert_eq!(v.accept(&Sentinel { target: "variable" }), Ok("variable"));
}

/// Renders an expression in prefix form.
struct Printer;

impl Printer {
    fn parenthesize(&self, op: &str, parts: &[&Expr]) -> Result<String, String> {
        let mut out = format!("({}", op);
        for p in parts {
            out.push(' ');
            out.push_str(&p.accept(self)?);
        }
        out.push(')');
        Ok(out)
    }
}

impl Visitor<String, String> for Printer {
    fn visit_assign_expr(&self, e: &Assign) -> Result<String, String> {
        self.parenthesize(&format!("= {}", e.name.lexeme), &[&e.value])
    }
    fn visit_binary_expr(&self, e: &Binary) -> Result<String, String> {
        self.parenthesize(&e.operator.lexeme, &[&e.left, &e.right])
    }
    fn visit_call_expr(&self, e: &Call) -> Result<String, String> {
        let mut parts: Vec<&Expr> = vec![&e.callee];
        parts.extend(e.arguments.iter());
        self.parenthesize("call", &parts)
    }
    fn visit_get_expr(&self, e: &Get) -> Result<String, String> {
        self.parenthesize(&format!(". {}", e.name.lexeme), &[&e.object])
    }
    fn visit_group_expr(&self, e: &Grouping) -> Result<String, String> {
        self.parenthesize("group", &[&e.expression])
    }
    fn visit_literal_expr(&self, e: &Literal) -> Result<String, String> {
        Ok(match &e.value {
            Object::Str(s) => s.clone(),
            Object::Num(n) => n.to_string(),
            Object::Bool(b) => b.to_string(),
            Object::Nil => "nil".to_string(),
        })
    }
    fn visit_logical_expr(&self, e: &Logical) -> Result<String, String> {
        self.parenthesize(&e.operator.lexeme, &[&e.left, &e.right])
    }
    fn visit_set_expr(&self, e: &SetField) -> Result<String, String> {
        self.parenthesize(&format!("set {}", e.name.lexeme), &[&e.object, &e.value])
    }
    fn visit_super_expr(&self, e: &Super) -> Result<String, String> {
        Ok(format!("super.{}", e.method.lexeme))
    }
    fn visit_this_expr(&self, _: &This) -> Result<String, String> {
        Ok("this".to_string())
    }
    fn visit_unary_expr(&self, e: &Unary) -> Result<String, String> {
        self.parenthesize(&e.operator.lexeme, &[&e.right])
    }
    fn visit_variable_expr(&self, e: &Variable) -> Result<String, String> {
        Ok(e.name.lexeme.clone())
    }
}

/// Evaluates arithmetic over integer literals; anything else is an error.
struct Evaluator;

impl Visitor<i64, String> for Evaluator {
    fn visit_assign_expr(&self, _: &Assign) -> Result<i64, String> {
        Err("assignment".to_string())
    }
    fn visit_binary_expr(&self, e: &Binary) -> Result<i64, String> {
        let l = e.left.accept(self)?;
        let r = e.right.accept(self)?;
        match e.operator.type_ {
            TokenType::PLUS => Ok(l + r),
            TokenType::MINUS => Ok(l - r),
            TokenType::STAR => Ok(l * r),
            _ => Err(format!("operator {}", e.operator.lexeme)),
        }
    }
    fn visit_call_expr(&self, _: &Call) -> Result<i64, String> {
        Err("call".to_string())
    }
    fn visit_get_expr(&self, _: &Get) -> Result<i64, String> {
        Err("get".to_string())
    }
    fn visit_group_expr(&self, e: &Grouping) -> Result<i64, String> {
        e.expression.accept(self)
    }
    fn visit_literal_expr(&self, e: &Literal) -> Result<i64, String> {
        match e.value {
            Object::Num(n) => Ok(n),
            _ => Err("not a number".to_string()),
        }
    }
    fn visit_logical_expr(&self, _: &Logical) -> Result<i64, String> {
        Err("logical".to_string())
    }
    fn visit_set_expr(&self, _: &SetField) -> Result<i64, String> {
        Err("set".to_string())
    }
    fn visit_super_expr(&self, _: &Super) -> Result<i64, String> {
        Err("super".to_string())
    }
    fn visit_this_expr(&self, _: &This) -> Result<i64, String> {
        Err("this".to_string())
    }
    fn visit_unary_expr(&self, e: &Unary) -> Result<i64, String> {
        let r = e.right.accept(self)?;
        match e.operator.type_ {
            TokenType::MINUS => Ok(-r),
            _ => Err(format!("operator {}", e.operator.lexeme)),
        }
    }
    fn visit_variable_expr(&self, e: &Variable) -> Result<i64, String> {
        Err(format!("unbound {}", e.name.lexeme))
    }
}

fn one_plus_two() -> Expr {
    Expr::Binary(Binary::new(Box::new(num(1)), tok(TokenType::PLUS, "+"), Box::new(num(2))))
}

#[test]
fn binary_prints_prefix() {
    assert_eq!(one_plus_two().accept(&Printer), Ok("(+ 1 2)".to_string()));
}

#[test]
fn binary_evaluates() {
    assert_eq!(one_plus_two().accept(&Evaluator), Ok(3));
}

#[test]
fn nested_expression_prints_and_evaluates() {
    let e = Expr::Binary(Binary::new(
        Box::new(Expr::Unary(Unary::new(tok(TokenType::MINUS, "-"), Box::new(num(123))))),
        tok(TokenType::STAR, "*"),
        Box::new(Expr::Grouping(Grouping::new(Box::new(num(45))))),
    ));
    assert_eq!(e.accept(&Printer), Ok("(* (- 123) (group 45))".to_string()));
    assert_eq!(e.accept(&Evaluator), Ok(-5535));
}

#[test]
fn visitor_error_propagates_unchanged() {
    let e = Expr::Grouping(Grouping::new(Box::new(Expr::Binary(Binary::new(
        Box::new(num(1)),
        tok(TokenType::PLUS, "+"),
        Box::new(Expr::Variable(Variable::new(name("x")))),
    )))));
    assert_eq!(e.accept(&Evaluator), Err("unbound x".to_string()));
}

#[test]
fn constructors_keep_their_parts() {
    let c = Call::new(Box::new(num(7)), tok(TokenType::RIGHT_PAREN, ")"), vec![num(1), num(2), num(3)]);
    assert_eq!(c.arguments.len(), 3);
    assert_eq!(c.paren.lexeme, ")");
    let s = Super::new(tok(TokenType::SUPER, "super"), name("m"));
    assert_eq!(s.keyword.type_, TokenType::SUPER);
    assert_eq!(s.method.lexeme, "m");
    let a = Assign::new(name("a"), Box::new(num(9)));
    assert_eq!(a.name.lexeme, "a");
    assert_eq!(a.value.accept(&Evaluator), Ok(9));
}

#[test]
fn deep_tree_is_released() {
    let mut e = num(0);
    for i in 1..2000 {
        e = Expr::Binary(Binary::new(Box::new(e), tok(TokenType::PLUS, "+"), Box::new(num(i))));
    }
    let root = Expr::Grouping(Grouping::new(Box::new(e)));
    assert_eq!(root.accept(&Sentinel { target: "group" }), Ok("group"));
    drop(root);
}
