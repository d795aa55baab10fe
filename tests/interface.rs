use tree_sitter_visitor::{generate_visitor, GenerateError, VisitError, VisitorInterface};

fn schema(kinds: &[&str]) -> Vec<String> {
    kinds.iter().map(|s| s.to_string()).collect()
}

fn method_names(v: &VisitorInterface) -> Vec<String> {
    (0..v.methods.len()).map(|i| v.method_name_of(i)).collect()
}

#[test]
fn one_method_per_kind() {
    let v = generate_visitor("CalcVisitor", &schema(&["root", "number", "add_expr", "+"])).unwrap();
    assert_eq!(v.name, "CalcVisitor");
    assert_eq!(
        method_names(&v),
        vec!["visit_root", "visit_number", "visit_add_expr", "visit_PLUS"]
    );
    assert_eq!(v.arms.len(), 4);
    assert_eq!(v.arms[3].raw_name, "+");
    assert_eq!(v.arms[3].method, 3);
}

#[test]
fn generation_is_deterministic() {
    let kinds = schema(&["b", "a", ",", "b"]);
    let v1 = generate_visitor("V", &kinds).unwrap();
    let v2 = generate_visitor("V", &kinds).unwrap();
    assert_eq!(method_names(&v1), method_names(&v2));
    let t1: Vec<(String, usize)> = v1.arms.iter().map(|a| (a.raw_name.clone(), a.method)).collect();
    let t2: Vec<(String, usize)> = v2.arms.iter().map(|a| (a.raw_name.clone(), a.method)).collect();
    assert_eq!(t1, t2);
    assert_eq!(v1.render(), v2.render());
}

#[test]
fn repeated_raw_name_shares_its_method() {
    let v = generate_visitor("V", &schema(&["a", "b", "a"])).unwrap();
    assert_eq!(method_names(&v), vec!["visit_a", "visit_b"]);
    assert_eq!(v.arms.len(), 3);
    assert_eq!(v.arms[2].method, 0);
    assert_eq!(v.dispatch("a"), Ok(0));
}

#[test]
fn colliding_names_are_rejected() {
    let r = generate_visitor("V", &schema(&["x", "a-", "a_DASH"]));
    assert_eq!(
        r.err(),
        Some(GenerateError::Collision { first: "a-".to_string(), second: "a_DASH".to_string() })
    );
}

#[test]
fn empty_schema_has_no_methods() {
    let v = generate_visitor("V", &Vec::new()).unwrap();
    assert!(v.methods.is_empty());
    assert_eq!(v.dispatch("x"), Err(VisitError::UnknownKind("x".to_string())));
}

#[test]
fn unsupported_name_degenerates_to_bare_prefix() {
    let v = generate_visitor("V", &schema(&["é"])).unwrap();
    assert_eq!(method_names(&v), vec!["visit_"]);
}

#[test]
fn dispatch_counts_fizz_and_buzz() {
    let v = generate_visitor("FizzBuzz", &schema(&["fizz", "buzz"])).unwrap();
    let mut fizz = 0;
    let mut buzz = 0;
    for tag in ["fizz", "buzz", "fizz", "fizz", "buzz"] {
        let i = v.dispatch(tag).unwrap();
        match v.method_name_of(i).as_str() {
            "visit_fizz" => fizz += 1,
            "visit_buzz" => buzz += 1,
            other => panic!("unexpected method {}", other),
        }
    }
    assert_eq!((fizz, buzz), (3, 2));
}

#[test]
fn dispatch_of_unknown_kind_fails() {
    let v = generate_visitor("V", &schema(&["fizz", "buzz"])).unwrap();
    assert_eq!(v.dispatch("bang"), Err(VisitError::UnknownKind("bang".to_string())));
}

#[test]
fn unoverridden_method_reports_identifier() {
    let v = generate_visitor("V", &schema(&["a,"])).unwrap();
    assert_eq!(v.not_implemented(0), VisitError::NotImplemented("a_COMMA".to_string()));
}

#[test]
fn render_emits_trait_source() {
    let v = generate_visitor("Calc", &schema(&["number", "\"", "`"])).unwrap();
    let src = v.render();
    let expected = [
        "pub trait Calc {\n",
        "    type ReturnType;\n",
        "\n",
        "    /// Visits a node of any type.\n",
        "    fn visit(&mut self, node: &::tree_sitter::Node) -> Self::ReturnType {\n",
        "        match node.kind() {\n",
        "            \"number\" => self.visit_number(node),\n",
        "            \"\\\"\" => self.visit_DQUOTE(node),\n",
        "            \"`\" => self.visit_BQUOTE(node),\n",
        "            kind => panic!(\"unknown node kind: {}\", kind),\n",
        "        }\n",
        "    }\n",
        "\n",
        "    /// Visits a node of type `\"number\"`\n",
        "    fn visit_number(&mut self, node: &::tree_sitter::Node) -> Self::ReturnType {\n",
        "        panic!(\"not implemented: number\")\n",
        "    }\n",
        "\n",
        "    /// Visits a node of type `\"\\\"\"`\n",
        "    fn visit_DQUOTE(&mut self, node: &::tree_sitter::Node) -> Self::ReturnType {\n",
        "        panic!(\"not implemented: DQUOTE\")\n",
        "    }\n",
        "\n",
        "    /// Visits a node of type `\"\\`\"`\n",
        "    fn visit_BQUOTE(&mut self, node: &::tree_sitter::Node) -> Self::ReturnType {\n",
        "        panic!(\"not implemented: BQUOTE\")\n",
        "    }\n",
        "}\n",
    ]
    .concat();
    assert_eq!(src, expected);
}

#[test]
fn render_escapes_control_characters_as_debug_does() {
    let v = generate_visitor("V", &schema(&["\0", "'"])).unwrap();
    let src = v.render();
    assert!(src.contains("            \"\\0\" => self.visit_(node),\n"), "{}", src);
    assert!(src.contains("            \"\\'\" => self.visit_SQUOTE(node),\n"), "{}", src);
    assert!(src.contains("    /// Visits a node of type `\"\\0\"`\n"), "{}", src);
}

#[test]
fn render_escaped_uses_given_texts() {
    let v = generate_visitor("V", &schema(&["a"])).unwrap();
    let src = v.render_escaped(&vec!["LIT".to_string()], &vec!["DOC".to_string()]);
    assert!(src.contains("            \"LIT\" => self.visit_a(node),\n"), "{}", src);
    assert!(src.contains("    /// Visits a node of type `\"DOC\"`\n"), "{}", src);
    assert!(src.ends_with("panic!(\"not implemented: a\")\n    }\n}\n"), "{}", src);
}

#[test]
fn collision_names_first_colliding_entry() {
    let r = generate_visitor("V", &schema(&["a-", "b", "b+", "a_DASH", "b_PLUS"]));
    assert_eq!(
        r.err(),
        Some(GenerateError::Collision { first: "a-".to_string(), second: "a_DASH".to_string() })
    );
}
