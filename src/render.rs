use vstd::prelude::*;

use crate::interface::VisitorInterface;
use crate::sanitize::sanitize;
use crate::text::{push_str, string_of_chars};

verus! {

/// The characters that `str::escape_debug` yields for `s`.
pub uninterp spec fn debug_escaped(s: Seq<char>) -> Seq<char>;

/// Relies on `str::escape_debug`: the escaped form of a string depends on
/// its characters alone, and an empty string stays empty.
#[verifier::external_body]
fn escape_debug_of(s: &str) -> (r: String)
    ensures
        r@ == debug_escaped(s@),
        s@.len() == 0 ==> r@.len() == 0,
{
    s.escape_debug().to_string()
}

/// `s` with each backtick preceded by a backslash, so that it can stand in a
/// code span of a doc comment.
pub open spec fn backticks_escaped(s: Seq<char>) -> Seq<char>
    decreases s.len(),
{
    if s.len() == 0 {
        seq![]
    } else if s.last() == '`' {
        backticks_escaped(s.drop_last()) + seq!['\\', '`']
    } else {
        backticks_escaped(s.drop_last()).push(s.last())
    }
}

/// Puts a backslash before each backtick of `s`.
pub fn escape_backticks(s: &str) -> (r: String)
    ensures
        r@ == backticks_escaped(s@),
{
    broadcast use vstd::string::group_string_axioms;

    let mut out: Vec<char> = Vec::new();
    for c in it: s.chars()
        invariant
            it.seq() == s@,
            out@ == backticks_escaped(s@.take(it.index() as int)),
    {
        let ghost i = it.index() as int;
        assert(s@.take(i + 1).drop_last() =~= s@.take(i));
        assert(s@.take(i + 1).last() == c);
        if c == '`' {
            out.push('\\');
        }
        out.push(c);
        assert(c == '`' ==> out@ =~= backticks_escaped(s@.take(i)) + seq!['\\', '`']);
    }
    assert(s@.take(s@.len() as int) =~= s@);
    string_of_chars(out)
}

/// The start of the trait, up to the first dispatch arm.
pub open spec fn header(name: Seq<char>) -> Seq<char> {
    "pub trait "@ + name + " {\n    type ReturnType;\n\n    /// Visits a node of any type.\n    fn visit(&mut self, node: &::tree_sitter::Node) -> Self::ReturnType {\n        match node.kind() {\n"@
}

/// The dispatch arm for a raw name written as the literal body `lit`, whose
/// method has the identifier `ident`.
pub open spec fn arm_line(lit: Seq<char>, ident: Seq<char>) -> Seq<char> {
    "            \""@ + lit + "\" => self.visit_"@ + ident + "(node),\n"@
}

/// The end of the dispatcher: the arm for unknown kinds.
pub open spec fn dispatch_end() -> Seq<char> {
    "            kind => panic!(\"unknown node kind: {}\", kind),\n        }\n    }\n"@
}

/// The default method with identifier `ident` for a raw name that its doc
/// comment shows as `doc`.
pub open spec fn method_block(doc: Seq<char>, ident: Seq<char>) -> Seq<char> {
    "\n    /// Visits a node of type `\""@ + doc + "\"`\n    fn visit_"@ + ident
        + "(&mut self, node: &::tree_sitter::Node) -> Self::ReturnType {\n        panic!(\"not implemented: "@
        + ident + "\")\n    }\n"@
}

/// The dispatch arms, each given as a literal body and an identifier.
pub open spec fn arm_lines(arms: Seq<(Seq<char>, Seq<char>)>) -> Seq<char>
    decreases arms.len(),
{
    if arms.len() == 0 {
        seq![]
    } else {
        arm_lines(arms.drop_last()) + arm_line(arms.last().0, arms.last().1)
    }
}

/// The default methods, each given as a doc text and an identifier.
pub open spec fn method_blocks(methods: Seq<(Seq<char>, Seq<char>)>) -> Seq<char>
    decreases methods.len(),
{
    if methods.len() == 0 {
        seq![]
    } else {
        method_blocks(methods.drop_last()) + method_block(methods.last().0, methods.last().1)
    }
}

/// The Rust source of a visitor trait named `name` with the given dispatch
/// arms and default methods.
pub open spec fn render_text(
    name: Seq<char>,
    arms: Seq<(Seq<char>, Seq<char>)>,
    methods: Seq<(Seq<char>, Seq<char>)>,
) -> Seq<char> {
    header(name) + arm_lines(arms) + dispatch_end() + method_blocks(methods) + "}\n"@
}

/// The Rust source of a visitor trait named `name` with methods for the raw
/// names `methods` and dispatch arms for the raw names `arms`: raw names are
/// escaped as `str::escape_debug` does, with backticks escaped in doc comments.
pub open spec fn trait_source(name: Seq<char>, methods: Seq<Seq<char>>, arms: Seq<Seq<char>>) -> Seq<
    char,
> {
    render_text(
        name,
        arms.map_values(|r: Seq<char>| (debug_escaped(r), sanitize(r))),
        methods.map_values(|r: Seq<char>| (backticks_escaped(debug_escaped(r)), sanitize(r))),
    )
}

impl VisitorInterface {
    /// The dispatch arms given their literal bodies, in order.
    pub open spec fn arm_texts(&self, literals: Seq<String>) -> Seq<(Seq<char>, Seq<char>)> {
        Seq::new(self.arms.len() as nat, |k: int| (literals[k]@, sanitize(self.arms[k].raw_name@)))
    }

    /// The default methods given their doc texts, in order.
    pub open spec fn method_texts(&self, docs: Seq<String>) -> Seq<(Seq<char>, Seq<char>)> {
        Seq::new(self.methods.len() as nat, |i: int| (docs[i]@, self.methods[i].ident@))
    }

    /// The Rust source text of the visitor trait, with `arm_literals[k]` as
    /// the literal body of arm `k` and `method_docs[i]` as the name shown in
    /// the doc comment of method `i`.
    pub fn render_escaped(&self, arm_literals: &Vec<String>, method_docs: &Vec<String>) -> (r:
        String)
        requires
            self.wf(),
            arm_literals.len() == self.arms.len(),
            method_docs.len() == self.methods.len(),
        ensures
            r@ == render_text(
                self.name@,
                self.arm_texts(arm_literals@),
                self.method_texts(method_docs@),
            ),
    {
        let ghost arms = self.arm_texts(arm_literals@);
        let ghost methods = self.method_texts(method_docs@);
        let mut out: Vec<char> = Vec::new();
        push_str(&mut out, "pub trait ");
        push_str(&mut out, self.name.as_str());
        push_str(
            &mut out,
            " {\n    type ReturnType;\n\n    /// Visits a node of any type.\n    fn visit(&mut self, node: &::tree_sitter::Node) -> Self::ReturnType {\n        match node.kind() {\n",
        );
        assert(out@ =~= header(self.name@));
        let mut k: usize = 0;
        while k < self.arms.len()
            invariant
                self.wf(),
                arm_literals.len() == self.arms.len(),
                arms == self.arm_texts(arm_literals@),
                k <= self.arms.len(),
                out@ == header(self.name@) + arm_lines(arms.take(k as int)),
            decreases self.arms.len() - k,
        {
            let ghost before = out@;
            let arm = &self.arms[k];
            let ident = &self.methods[arm.method].ident;
            assert(ident@ == sanitize(arm.raw_name@));
            push_str(&mut out, "            \"");
            push_str(&mut out, arm_literals[k].as_str());
            push_str(&mut out, "\" => self.visit_");
            push_str(&mut out, ident.as_str());
            push_str(&mut out, "(node),\n");
            proof {
                let t = arms.take(k + 1);
                assert(t.drop_last() =~= arms.take(k as int));
                assert(t.last() == arms[k as int]);
                assert(out@ =~= before + arm_line(arms[k as int].0, arms[k as int].1));
            }
            k = k + 1;
        }
        assert(arms.take(k as int) =~= arms);
        push_str(
            &mut out,
            "            kind => panic!(\"unknown node kind: {}\", kind),\n        }\n    }\n",
        );
        let ghost mid = out@;
        assert(mid == header(self.name@) + arm_lines(arms) + dispatch_end());
        let mut i: usize = 0;
        while i < self.methods.len()
            invariant
                method_docs.len() == self.methods.len(),
                methods == self.method_texts(method_docs@),
                i <= self.methods.len(),
                out@ == mid + method_blocks(methods.take(i as int)),
            decreases self.methods.len() - i,
        {
            let ghost before = out@;
            let m = &self.methods[i];
            push_str(&mut out, "\n    /// Visits a node of type `\"");
            push_str(&mut out, method_docs[i].as_str());
            push_str(&mut out, "\"`\n    fn visit_");
            push_str(&mut out, m.ident.as_str());
            push_str(
                &mut out,
                "(&mut self, node: &::tree_sitter::Node) -> Self::ReturnType {\n        panic!(\"not implemented: ",
            );
            push_str(&mut out, m.ident.as_str());
            push_str(&mut out, "\")\n    }\n");
            proof {
                let t = methods.take(i + 1);
                assert(t.drop_last() =~= methods.take(i as int));
                assert(t.last() == methods[i as int]);
                assert(out@ =~= before + method_block(methods[i as int].0, methods[i as int].1));
            }
            i = i + 1;
        }
        assert(methods.take(i as int) =~= methods);
        push_str(&mut out, "}\n");
        assert(out@ =~= render_text(self.name@, arms, methods));
        string_of_chars(out)
    }

    /// The Rust source text of the visitor trait: an associated
    /// `ReturnType`, the `visit` dispatcher with one arm per schema entry in
    /// schema order, and one default `visit_<ident>` method per method, whose
    /// body panics with the identifier.
    pub fn render(&self) -> (r: String)
        requires
            self.wf(),
        ensures
            r@ == trait_source(self.name@, self.method_raws(), self.arm_raws()),
    {
        let mut literals: Vec<String> = Vec::new();
        let mut k: usize = 0;
        while k < self.arms.len()
            invariant
                k <= self.arms.len(),
                literals.len() == k,
                forall|l: int|
                    0 <= l < k ==> #[trigger] literals[l]@ == debug_escaped(self.arms[l].raw_name@),
            decreases self.arms.len() - k,
        {
            literals.push(escape_debug_of(self.arms[k].raw_name.as_str()));
            k = k + 1;
        }
        let mut docs: Vec<String> = Vec::new();
        let mut i: usize = 0;
        while i < self.methods.len()
            invariant
                i <= self.methods.len(),
                docs.len() == i,
                forall|l: int|
                    0 <= l < i ==> #[trigger] docs[l]@ == backticks_escaped(
                        debug_escaped(self.methods[l].raw_name@),
                    ),
            decreases self.methods.len() - i,
        {
            let escaped = escape_debug_of(self.methods[i].raw_name.as_str());
            docs.push(escape_backticks(escaped.as_str()));
            i = i + 1;
        }
        let r = self.render_escaped(&literals, &docs);
        proof {
            assert(self.arm_texts(literals@) =~= self.arm_raws().map_values(
                |r: Seq<char>| (debug_escaped(r), sanitize(r)),
            ));
            assert forall|l: int| 0 <= l < self.methods.len() implies #[trigger] self.method_texts(
                docs@,
            )[l] == (backticks_escaped(debug_escaped(self.method_raws()[l])), sanitize(
                self.method_raws()[l],
            )) by {
                assert(self.methods[l].ident@ == sanitize(self.methods[l].raw_name@));
            }
            assert(self.method_texts(docs@) =~= self.method_raws().map_values(
                |r: Seq<char>| (backticks_escaped(debug_escaped(r)), sanitize(r)),
            ));
        }
        r
    }
}

} // verus!
