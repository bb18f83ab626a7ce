use class_schedule::requisite::{parse_requirements, split_top_level, Expr, ParseError};

fn course(number: &str) -> Expr {
    Expr::Course(number.to_string())
}

fn and(l: Expr, r: Expr) -> Expr {
    Expr::And(Box::new(l), Box::new(r))
}

fn or(l: Expr, r: Expr) -> Expr {
    Expr::Or(Box::new(l), Box::new(r))
}

fn done(numbers: &[&str]) -> Vec<String> {
    numbers.iter().map(|s| s.to_string()).collect()
}

#[test]
fn test_basic_parsing() {
    assert!(matches!(Expr::from_str("15122").unwrap(), Expr::Course(s) if s == "15122"));

    let expr = Expr::from_str("15122 and 21122").unwrap();
    assert!(matches!(expr, Expr::And(_, _)));

    let expr = Expr::from_str("15122 or 21122").unwrap();
    assert!(matches!(expr, Expr::Or(_, _)));
}

#[test]
fn test_complex_expression() {
    let expr = Expr::from_str("(15122 and 21122) or 15213").unwrap();

    assert!(expr.evaluate(&["15122".to_string(), "21122".to_string()]));
    assert!(expr.evaluate(&["15213".to_string()]));
    assert!(!expr.evaluate(&["15122".to_string()]));

    let req_str = "(15122 and 21122 and 21240) or (15122 and 21122 and 21241)";
    let expr = Expr::from_str(req_str).unwrap();

    assert!(!expr.evaluate(&["15122".to_string(), "21122".to_string()]));
    assert!(expr.evaluate(&[
        "15122".to_string(),
        "21122".to_string(),
        "21240".to_string()
    ]));
    assert!(expr.evaluate(&[
        "15122".to_string(),
        "21122".to_string(),
        "21241".to_string()
    ]));
}

#[test]
fn test_simplify_course() {
    let expr = Expr::Course("15122".to_string());

    let simplified = expr.simplify(&[]);
    assert_eq!(simplified, Some(Expr::Course("15122".to_string())));

    let simplified = expr.simplify(&["15122".to_string()]);
    assert_eq!(simplified, None);
}

#[test]
fn test_simplify_and() {
    let expr = Expr::And(
        Box::new(Expr::Course("15122".to_string())),
        Box::new(Expr::Course("21122".to_string())),
    );

    let simplified = expr.simplify(&[]);
    assert_eq!(simplified, Some(expr.clone()));

    let simplified = expr.simplify(&["15122".to_string()]);
    assert_eq!(simplified, Some(Expr::Course("21122".to_string())));

    let simplified = expr.simplify(&["21122".to_string()]);
    assert_eq!(simplified, Some(Expr::Course("15122".to_string())));

    let simplified = expr.simplify(&["15122".to_string(), "21122".to_string()]);
    assert_eq!(simplified, None);
}

#[test]
fn test_simplify_or() {
    let expr = Expr::Or(
        Box::new(Expr::Course("15122".to_string())),
        Box::new(Expr::Course("21122".to_string())),
    );

    let simplified = expr.simplify(&[]);
    assert_eq!(simplified, Some(expr.clone()));

    let simplified = expr.simplify(&["15122".to_string()]);
    assert_eq!(simplified, None);

    let simplified = expr.simplify(&["21122".to_string()]);
    assert_eq!(simplified, None);
}

#[test]
fn test_simplify_complex() {
    let expr = Expr::Or(
        Box::new(Expr::And(
            Box::new(Expr::Course("15122".to_string())),
            Box::new(Expr::Course("21122".to_string())),
        )),
        Box::new(Expr::Course("15213".to_string())),
    );

    let simplified = expr.simplify(&["15122".to_string()]);
    assert_eq!(
        simplified,
        Some(Expr::Or(
            Box::new(Expr::Course("21122".to_string())),
            Box::new(Expr::Course("15213".to_string()))
        ))
    );

    let simplified = expr.simplify(&["15122".to_string(), "21122".to_string()]);
    assert_eq!(simplified, None);

    let simplified = expr.simplify(&["15213".to_string()]);
    assert_eq!(simplified, None);
}

#[test]
fn or_binds_looser_than_and() {
    let expr = parse_requirements("15122 and 21122 or 15213").unwrap();
    assert_eq!(
        expr,
        or(and(course("15122"), course("21122")), course("15213"))
    );
    assert!(expr.evaluate(&done(&["15213"])));
    assert!(!expr.evaluate(&done(&["15122"])));

    let expr = parse_requirements("15213 or 15122 and 21122").unwrap();
    assert_eq!(
        expr,
        or(course("15213"), and(course("15122"), course("21122")))
    );
}

#[test]
fn chains_group_to_the_left() {
    assert_eq!(
        parse_requirements("1 or 2 or 3").unwrap(),
        or(or(course("1"), course("2")), course("3"))
    );
    assert_eq!(
        parse_requirements("1 and 2 and 3 and 4").unwrap(),
        and(and(and(course("1"), course("2")), course("3")), course("4"))
    );
}

#[test]
fn parentheses_group() {
    assert_eq!(
        parse_requirements("15122 and (21122 or 15213)").unwrap(),
        and(course("15122"), or(course("21122"), course("15213")))
    );
    assert_eq!(
        parse_requirements("  ((15122))  ").unwrap(),
        course("15122")
    );
    assert_eq!(
        parse_requirements("(1 or 2) and (3 or 4)").unwrap(),
        and(or(course("1"), course("2")), or(course("3"), course("4")))
    );
    assert_eq!(
        parse_requirements("( 1 and 2 )").unwrap(),
        and(course("1"), course("2"))
    );
}

#[test]
fn what_is_no_expression_is_reported() {
    assert_eq!(
        parse_requirements("15122 and abc"),
        Err(ParseError("Failed to parse: abc".to_string()))
    );
    assert_eq!(
        parse_requirements("x or y"),
        Err(ParseError("Failed to parse: x".to_string()))
    );
    assert_eq!(
        parse_requirements("  15122 or21122 "),
        Err(ParseError("Failed to parse: 15122 or21122".to_string()))
    );
    assert_eq!(
        parse_requirements("15122 ANDOR 21122"),
        Err(ParseError("Failed to parse: 15122 ANDOR 21122".to_string()))
    );
    assert_eq!(
        parse_requirements("(15122"),
        Err(ParseError("Failed to parse: (15122".to_string()))
    );
    assert_eq!(
        parse_requirements("(1)(2)"),
        Err(ParseError("Failed to parse: 1)(2".to_string()))
    );
    assert_eq!(
        parse_requirements("15\u{e9}22"),
        Err(ParseError("Failed to parse: 15\u{e9}22".to_string()))
    );
    assert_eq!(
        ParseError("Failed to parse: abc".to_string()).to_string(),
        "Failed to parse: abc"
    );
    assert_eq!(parse_requirements("").unwrap(), course(""));
}

#[test]
fn nothing_remains_of_what_is_met() {
    let expr = parse_requirements("(15122 and 21122) or (15213 and 15210)").unwrap();
    for completed in [
        done(&["15122", "21122"]),
        done(&["15213", "15210"]),
        done(&["15122", "21122", "15213", "15210"]),
    ] {
        assert!(expr.evaluate(&completed));
        assert_eq!(expr.simplify(&completed), None);
    }
    for completed in [done(&[]), done(&["15122"]), done(&["21122", "15213"])] {
        assert!(!expr.evaluate(&completed));
        assert!(expr.simplify(&completed).is_some());
    }
}

#[test]
fn everything_remains_when_nothing_is_done() {
    for text in [
        "15122",
        "15122 and 21122",
        "15122 or 21122",
        "(15122 and 21122) or 15213",
        "15122 and (21122 or (15213 and 15210))",
    ] {
        let expr = parse_requirements(text).unwrap();
        assert_eq!(expr.simplify(&[]), Some(expr.clone()));
    }
}

#[test]
fn simplifying_twice_is_simplifying_once() {
    let expr = parse_requirements("(15122 and 21122) or (15213 and 15210)").unwrap();
    let completed = done(&["15122", "15210"]);
    let once = expr.simplify(&completed).unwrap();
    assert_eq!(once, or(course("21122"), course("15213")));
    assert_eq!(once.simplify(&completed), Some(once.clone()));
}

#[test]
fn splitting_at_the_top_level() {
    assert_eq!(
        split_top_level("1 or (2 or 3) or 4", "or"),
        Some(vec!["1".to_string(), "(2 or 3)".to_string(), "4".to_string()])
    );
    assert_eq!(split_top_level("(1 or 2)", "or"), None);
    assert_eq!(split_top_level("1 and 2", "or"), None);
    assert_eq!(split_top_level("15122", "or"), None);
    assert_eq!(split_top_level(" or 2", "or"), None);
    assert_eq!(
        split_top_level("a or or b", "or"),
        Some(vec!["a".to_string(), "or b".to_string()])
    );
    assert_eq!(
        split_top_level("1  and  2 and 3", "and"),
        Some(vec!["1".to_string(), "2".to_string(), "3".to_string()])
    );
    assert_eq!(
        split_top_level(") or 1 or 2", "or"),
        None
    );
}

#[test]
fn operators_in_capital_and_small_letters() {
    assert_eq!(
        parse_requirements("15122 AND 21122"),
        Ok(and(course("15122"), course("21122")))
    );
    assert_eq!(
        parse_requirements("15122 Or 21122"),
        Ok(or(course("15122"), course("21122")))
    );
    assert_eq!(
        parse_requirements("15122 aNd 21122 oR 15213 OR (15210 And 15251)"),
        Ok(or(
            or(and(course("15122"), course("21122")), course("15213")),
            and(course("15210"), course("15251"))
        ))
    );
    assert_eq!(
        Expr::from_str("(15122 AND 21122) OR 15213"),
        Expr::from_str("(15122 and 21122) or 15213")
    );
    assert!(Expr::from_str("15122 AND 21122").unwrap().evaluate(&done(&["15122", "21122"])));
    assert_eq!(
        split_top_level("1 OR 2 or 3 Or 4", "or"),
        Some(vec!["1".to_string(), "2".to_string(), "3".to_string(), "4".to_string()])
    );
    assert_eq!(
        split_top_level("1 AND (2 AND 3)", "and"),
        Some(vec!["1".to_string(), "(2 AND 3)".to_string()])
    );
    // The operator itself is given in small letters.
    assert_eq!(split_top_level("1 OR 2", "OR"), None);
    assert_eq!(split_top_level("1 or 2", "OR"), None);
    // Letters beyond ASCII are no letters of the operators.
    assert_eq!(
        parse_requirements("1 \u{f5}r 2"),
        Err(ParseError("Failed to parse: 1 \u{f5}r 2".to_string()))
    );
}
