use mitos_network::errors::NetworkError;
use mitos_network::proxy::pac::ast::{BinOp, Expr, Stmt};
use mitos_network::proxy::pac::parser::parse;

const SCRIPT: &str = r#"
var proxy = "PROXY p:8080";
function isCorp(h) { return dnsDomainIs(h, ".corp") || h == "intranet"; }
function FindProxyForURL(url, host) {
    if (isCorp(host)) { return "DIRECT"; }
    else if (!isPlainHostName(host)) { x = 1 + 2; return proxy; }
    alert("unreachable");
    return;
}
function isCorp(h) { return false; }
"#;

#[test]
fn parses_functions_and_globals() {
    let p = parse(SCRIPT).unwrap();
    assert_eq!(p.functions.len(), 3);
    assert_eq!(p.globals.len(), 1);
    assert!(matches!(&p.globals[0], Stmt::VarDecl(n, Some(Expr::Str(s))) if n == "proxy" && s == "PROXY p:8080"));
    // The later declaration of a name is the one in force.
    assert_eq!(p.find_function("isCorp"), Some(2));
    assert_eq!(p.find_function("FindProxyForURL"), Some(1));
    assert_eq!(p.find_function("missing"), None);

    let (_, f) = &p.functions[1];
    assert_eq!(f.params, vec!["url".to_string(), "host".to_string()]);
    assert_eq!(f.body.len(), 3);
    match &f.body[0] {
        Stmt::If(Expr::Call(name, args), then_b, else_b) => {
            assert_eq!(name, "isCorp");
            assert_eq!(args.len(), 1);
            assert_eq!(then_b.len(), 1);
            // `else if` nests a single `if` statement.
            assert_eq!(else_b.len(), 1);
            match &else_b[0] {
                Stmt::If(Expr::Not(_), inner, rest) => {
                    assert!(matches!(&inner[0], Stmt::Assign(n, Expr::Binary(BinOp::Add, _, _)) if n == "x"));
                    assert!(rest.is_empty());
                }
                other => panic!("unexpected {other:?}"),
            }
        }
        other => panic!("unexpected {other:?}"),
    }
    assert!(matches!(&f.body[1], Stmt::ExprStmt(Expr::Call(n, _)) if n == "alert"));
    assert!(matches!(&f.body[2], Stmt::Return(None)));

    let (_, g) = &p.functions[0];
    assert!(matches!(&g.body[0], Stmt::Return(Some(Expr::Binary(BinOp::Or, _, _)))));
}

#[test]
fn precedence_binds_tighter_to_the_right() {
    let p = parse("var a = 1 + 2 < 3 == true && !b || c;").unwrap();
    match &p.globals[0] {
        Stmt::VarDecl(_, Some(Expr::Binary(BinOp::Or, l, r))) => {
            assert!(matches!(**r, Expr::Ident(ref c) if c == "c"));
            match &**l {
                Expr::Binary(BinOp::And, eq, not) => {
                    assert!(matches!(**not, Expr::Not(_)));
                    match &**eq {
                        Expr::Binary(BinOp::Eq, lt, t) => {
                            assert!(matches!(**t, Expr::Bool(true)));
                            assert!(matches!(**lt, Expr::Binary(BinOp::Lt, _, _)));
                        }
                        other => panic!("unexpected {other:?}"),
                    }
                }
                other => panic!("unexpected {other:?}"),
            }
        }
        other => panic!("unexpected {other:?}"),
    }
}

#[test]
fn parse_errors_name_the_token() {
    let e = parse("function f( { }").unwrap_err();
    assert!(matches!(&e, NetworkError::Parse(m) if m == "expected identifier, found LBrace in PAC script"));
    let e = parse("function f() { return 1;").unwrap_err();
    assert!(matches!(&e, NetworkError::Parse(m) if m == "unexpected end of PAC script (unclosed block)"));
    let e = parse("if (x { }").unwrap_err();
    assert!(matches!(&e, NetworkError::Parse(m) if m == "expected RParen, found LBrace in PAC script"));
    let e = parse(";").unwrap_err();
    assert!(matches!(&e, NetworkError::Parse(m) if m == "unexpected token Semi in PAC script"));
    let e = parse("var a = ;").unwrap_err();
    assert!(matches!(&e, NetworkError::Parse(m) if m == "unexpected token Semi in PAC expression"));
    assert!(matches!(parse("var s = \"open"), Err(NetworkError::Parse(_))));
}
