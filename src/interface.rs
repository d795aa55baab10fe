use vstd::prelude::*;

use crate::render::trait_source;
use crate::sanitize::{sanitize, sanitize_identifier};
use crate::text::same_text;

verus! {

/// One overridable `visit_<ident>` method of a generated visitor interface.
pub struct GeneratedMethod {
    /// The node-kind name as the schema writes it.
    pub raw_name: String,
    /// The sanitized form of `raw_name`; the method is `visit_<ident>`.
    pub ident: String,
}

/// One arm of the dispatcher: nodes tagged `raw_name` go to `methods[method]`.
pub struct DispatchArm {
    pub raw_name: String,
    pub method: usize,
}

/// A visitor interface: its name, its methods in first-occurrence order, and
/// one dispatch arm per schema entry, in schema order.
pub struct VisitorInterface {
    pub name: String,
    pub methods: Vec<GeneratedMethod>,
    pub arms: Vec<DispatchArm>,
}

/// Why an interface cannot be generated from a schema.
#[derive(Debug, Clone, PartialEq, Eq)]
pub enum GenerateError {
    /// Two different raw names sanitize to the same identifier, so their
    /// methods would share one name.
    Collision { first: String, second: String },
}

/// Why a visit failed.
#[derive(Debug, Clone, PartialEq, Eq)]
pub enum VisitError {
    /// The node's kind tag matches no schema entry.
    UnknownKind(String),
    /// The method for this identifier was not overridden.
    NotImplemented(String),
}

/// The raw names of a schema given as strings.
pub open spec fn kinds_view(kinds: Seq<String>) -> Seq<Seq<char>> {
    kinds.map_values(|s: String| s@)
}

/// The distinct raw names of a schema, in order of first occurrence: one
/// generated method each.
pub open spec fn method_kinds(kinds: Seq<Seq<char>>) -> Seq<Seq<char>>
    decreases kinds.len(),
{
    if kinds.len() == 0 {
        seq![]
    } else {
        let p = method_kinds(kinds.drop_last());
        if p.contains(kinds.last()) {
            p
        } else {
            p.push(kinds.last())
        }
    }
}

/// Whether two different raw names of the schema share a sanitized identifier.
pub open spec fn has_collision(kinds: Seq<Seq<char>>) -> bool {
    exists|a: int, b: int|
        0 <= a < kinds.len() && 0 <= b < kinds.len() && kinds[a] != kinds[b] && #[trigger] sanitize(
            kinds[a],
        ) == #[trigger] sanitize(kinds[b])
}

/// The name of the method generated for an identifier.
pub open spec fn method_name(ident: Seq<char>) -> Seq<char> {
    "visit_"@ + ident
}

impl VisitorInterface {
    /// The raw names of the methods, in order.
    pub open spec fn method_raws(&self) -> Seq<Seq<char>> {
        self.methods@.map_values(|m: GeneratedMethod| m.raw_name@)
    }

    /// The identifiers of the methods, in order.
    pub open spec fn method_idents(&self) -> Seq<Seq<char>> {
        self.methods@.map_values(|m: GeneratedMethod| m.ident@)
    }

    /// The raw names of the dispatch arms, in order.
    pub open spec fn arm_raws(&self) -> Seq<Seq<char>> {
        self.arms@.map_values(|a: DispatchArm| a.raw_name@)
    }

    /// The method index of each dispatch arm, in order.
    pub open spec fn arm_targets(&self) -> Seq<int> {
        self.arms@.map_values(|a: DispatchArm| a.method as int)
    }

    /// Each method is named after its sanitized raw name, and each arm leads
    /// to the method of its own raw name.
    pub open spec fn wf(&self) -> bool {
        &&& forall|i: int|
            0 <= i < self.methods.len() ==> #[trigger] self.methods[i].ident@ == sanitize(
                self.methods[i].raw_name@,
            )
        &&& forall|k: int|
            0 <= k < self.arms.len() ==> #[trigger] self.arms[k].method < self.methods.len()
                && self.methods[self.arms[k].method as int].raw_name@ == self.arms[k].raw_name@
    }

    /// The index of the first arm whose raw name is `kind`, if any.
    pub open spec fn first_arm(&self, kind: Seq<char>) -> Option<int> {
        if exists|k: int| 0 <= k < self.arms.len() && self.arms[k].raw_name@ == kind {
            Some(
                choose|k: int|
                    0 <= k < self.arms.len() && self.arms[k].raw_name@ == kind && forall|l: int|
                        0 <= l < k ==> self.arms[l].raw_name@ != kind,
            )
        } else {
            None
        }
    }
}

/// Entry `i` is the first schema entry that collides with an earlier one,
/// `second` is its raw name, and `first` the earlier raw name it collides with.
pub open spec fn first_collision_at(
    kinds: Seq<Seq<char>>,
    i: int,
    first: Seq<char>,
    second: Seq<char>,
) -> bool {
    &&& 0 <= i < kinds.len()
    &&& !has_collision(kinds.take(i))
    &&& second == kinds[i]
    &&& kinds.take(i).contains(first)
    &&& first != second
    &&& sanitize(first) == sanitize(second)
}

/// `e` names the first schema entry that collides with an earlier one, and
/// the earlier raw name it collides with.
pub open spec fn collision_reported(kinds: Seq<Seq<char>>, e: GenerateError) -> bool {
    match e {
        GenerateError::Collision { first, second } => {
            &&& has_collision(kinds)
            &&& exists|i: int| #[trigger] first_collision_at(kinds, i, first@, second@)
        },
    }
}

/// What generating an interface named `name` from `kinds` yields: an error
/// exactly when two raw names collide, naming the first colliding entry and
/// the earlier raw name it collides with; else one method per distinct raw name
/// in first-occurrence order and one arm per schema entry in schema order.
pub open spec fn is_generation_of(
    name: Seq<char>,
    kinds: Seq<Seq<char>>,
    r: Result<VisitorInterface, GenerateError>,
) -> bool {
    match r {
        Ok(v) => {
            &&& !has_collision(kinds)
            &&& v.wf()
            &&& v.name@ == name
            &&& v.method_raws() == method_kinds(kinds)
            &&& v.arm_raws() == kinds
        },
        Err(e) => collision_reported(kinds, e),
    }
}

/// Each raw name of the schema has a method, each method comes from the
/// schema, and no raw name has two methods.
pub proof fn lemma_method_kinds(kinds: Seq<Seq<char>>)
    ensures
        method_kinds(kinds).no_duplicates(),
        forall|k: int| 0 <= k < kinds.len() ==> method_kinds(kinds).contains(#[trigger] kinds[k]),
        forall|m: Seq<char>| method_kinds(kinds).contains(m) ==> kinds.contains(m),
    decreases kinds.len(),
{
    if kinds.len() > 0 {
        let p = kinds.drop_last();
        lemma_method_kinds(p);
        assert forall|k: int| 0 <= k < kinds.len() implies method_kinds(kinds).contains(
            #[trigger] kinds[k],
        ) by {
            if k < p.len() {
                assert(p[k] == kinds[k]);
                assert(method_kinds(p).contains(p[k]));
                if !method_kinds(p).contains(kinds.last()) {
                    let j = choose|j: int| 0 <= j < method_kinds(p).len() && method_kinds(p)[j] == p[k];
                    assert(method_kinds(kinds)[j] == p[k]);
                }
            } else {
                if !method_kinds(p).contains(kinds.last()) {
                    assert(method_kinds(kinds)[method_kinds(p).len() as int] == kinds.last());
                }
            }
        }
        assert forall|m: Seq<char>| method_kinds(kinds).contains(m) implies kinds.contains(m) by {
            if method_kinds(p).contains(m) {
                assert(p.contains(m));
                let j = choose|j: int| 0 <= j < p.len() && p[j] == m;
                assert(kinds[j] == m);
            } else {
                assert(kinds[kinds.len() - 1] == m);
            }
        }
    }
}

impl VisitorInterface {
    /// The index of the method that handles a node tagged `kind`: that of the
    /// first arm, in schema order, whose raw name is `kind`.
    pub fn dispatch(&self, kind: &str) -> (r: Result<usize, VisitError>)
        ensures
            match r {
                Ok(j) => self.first_arm(kind@) is Some && j == self.arms[self.first_arm(
                    kind@,
                )->0].method,
                Err(e) => self.first_arm(kind@) is None && e == VisitError::UnknownKind(
                    e->UnknownKind_0,
                ) && e->UnknownKind_0@ == kind@,
            },
            self.wf() ==> (r matches Ok(j) ==> j < self.methods.len()
                && self.methods[j as int].raw_name@ == kind@),
    {
        let mut k: usize = 0;
        while k < self.arms.len()
            invariant
                k <= self.arms.len(),
                forall|l: int| 0 <= l < k ==> self.arms[l].raw_name@ != kind@,
            decreases self.arms.len() - k,
        {
            if same_text(self.arms[k].raw_name.as_str(), kind) {
                proof {
                    let c = choose|c: int|
                        0 <= c < self.arms.len() && self.arms[c].raw_name@ == kind@ && forall|l: int|
                            0 <= l < c ==> self.arms[l].raw_name@ != kind@;
                    assert(c == k) by {
                        if c > k {
                            assert(self.arms[k as int].raw_name@ == kind@);
                        }
                    }
                }
                return Ok(self.arms[k].method);
            }
            k = k + 1;
        }
        Err(VisitError::UnknownKind(String::from_str(kind)))
    }

    /// The name of method `i`: `visit_` followed by its identifier.
    pub fn method_name_of(&self, i: usize) -> (r: String)
        requires
            i < self.methods.len(),
        ensures
            r@ == method_name(self.methods[i as int].ident@),
    {
        let mut r = String::from_str("visit_");
        r.append(self.methods[i].ident.as_str());
        r
    }

    /// The failure that method `i` reports when it is not overridden.
    pub fn not_implemented(&self, i: usize) -> (e: VisitError)
        requires
            i < self.methods.len(),
        ensures
            e == VisitError::NotImplemented(e->NotImplemented_0),
            e->NotImplemented_0@ == self.methods[i as int].ident@,
    {
        VisitError::NotImplemented(self.methods[i].ident.clone())
    }
}

/// Generation is deterministic: two generations from the same schema agree
/// on success, on the method names, on the dispatch order and targets, and on
/// the rendered source text.
pub proof fn lemma_generation_deterministic(
    name: Seq<char>,
    kinds: Seq<Seq<char>>,
    r1: Result<VisitorInterface, GenerateError>,
    r2: Result<VisitorInterface, GenerateError>,
)
    requires
        is_generation_of(name, kinds, r1),
        is_generation_of(name, kinds, r2),
    ensures
        r1 is Ok <==> r2 is Ok,
        r1 is Ok ==> {
            let v1 = r1->Ok_0;
            let v2 = r2->Ok_0;
            &&& v1.method_raws() == v2.method_raws()
            &&& v1.method_idents() == v2.method_idents()
            &&& v1.arm_raws() == v2.arm_raws()
            &&& v1.arm_targets() == v2.arm_targets()
            &&& trait_source(v1.name@, v1.method_raws(), v1.arm_raws()) == trait_source(
                v2.name@,
                v2.method_raws(),
                v2.arm_raws(),
            )
        },
{
    if r1 is Ok && r2 is Ok {
        let v1 = r1->Ok_0;
        let v2 = r2->Ok_0;
        let mk = method_kinds(kinds);
        lemma_method_kinds(kinds);
        assert(v1.methods.len() == mk.len() && v2.methods.len() == mk.len());
        assert forall|i: int| 0 <= i < mk.len() implies v1.method_idents()[i] == v2.method_idents()[i] by {
            assert(v1.methods[i].raw_name@ == mk[i]);
            assert(v2.methods[i].raw_name@ == mk[i]);
        }
        assert(v1.method_idents() =~= v2.method_idents());
        assert(v1.arms.len() == kinds.len() && v2.arms.len() == kinds.len());
        assert forall|k: int| 0 <= k < kinds.len() implies v1.arm_targets()[k] == v2.arm_targets()[k] by {
            let t1 = v1.arms[k].method as int;
            let t2 = v2.arms[k].method as int;
            assert(v1.arms[k].raw_name@ == kinds[k]);
            assert(v2.arms[k].raw_name@ == kinds[k]);
            assert(v1.methods[t1].raw_name@ == kinds[k]);
            assert(v2.methods[t2].raw_name@ == kinds[k]);
            assert(mk[t1] == v1.method_raws()[t1]);
            assert(mk[t2] == v2.method_raws()[t2]);
        }
        assert(v1.arm_targets() =~= v2.arm_targets());
    }
}

/// In a generated interface a kind tag has a dispatch arm exactly when the
/// schema lists it, and its first arm leads to the method of that raw name.
pub proof fn lemma_dispatch_follows_schema(
    name: Seq<char>,
    kinds: Seq<Seq<char>>,
    v: VisitorInterface,
    kind: Seq<char>,
)
    requires
        is_generation_of(name, kinds, Ok(v)),
    ensures
        v.first_arm(kind) is None <==> !kinds.contains(kind),
        v.first_arm(kind) matches Some(k) ==> v.methods[v.arms[k].method as int].raw_name@ == kind,
{
    assert(v.arms.len() == kinds.len());
    assert(forall|k: int| 0 <= k < kinds.len() ==> v.arm_raws()[k] == #[trigger] v.arms[k].raw_name@);
    if kinds.contains(kind) {
        let w = choose|w: int| 0 <= w < kinds.len() && kinds[w] == kind;
        assert(v.arms[w].raw_name@ == kind);
        assert(exists|c: int|
            0 <= c < v.arms.len() && v.arms[c].raw_name@ == kind && forall|l: int|
                0 <= l < c ==> v.arms[l].raw_name@ != kind) by {
            lemma_first_match(v, kind, w);
        }
    } else {
        assert forall|k: int| 0 <= k < v.arms.len() implies v.arms[k].raw_name@ != kind by {
            assert(kinds[k] == v.arms[k].raw_name@);
        }
    }
}

/// Where arm `w` has raw name `kind`, some arm is the first to have it.
proof fn lemma_first_match(v: VisitorInterface, kind: Seq<char>, w: int)
    requires
        0 <= w < v.arms.len(),
        v.arms[w].raw_name@ == kind,
    ensures
        exists|c: int|
            0 <= c < v.arms.len() && v.arms[c].raw_name@ == kind && forall|l: int|
                0 <= l < c ==> v.arms[l].raw_name@ != kind,
    decreases w,
{
    if exists|l: int| 0 <= l < w && v.arms[l].raw_name@ == kind {
        let l = choose|l: int| 0 <= l < w && v.arms[l].raw_name@ == kind;
        lemma_first_match(v, kind, l);
    } else {
        assert(forall|l: int| 0 <= l < w ==> v.arms[l].raw_name@ != kind);
    }
}

/// Equal method names come from equal identifiers.
proof fn lemma_method_name_injective(a: Seq<char>, b: Seq<char>)
    requires
        method_name(a) == method_name(b),
    ensures
        a == b,
{
    let p = "visit_"@;
    assert(method_name(a).subrange(p.len() as int, method_name(a).len() as int) =~= a);
    assert(method_name(b).subrange(p.len() as int, method_name(b).len() as int) =~= b);
}

/// Every schema entry has exactly one method named `visit_<sanitize(raw)>`.
pub proof fn lemma_coverage(name: Seq<char>, kinds: Seq<Seq<char>>, v: VisitorInterface)
    requires
        is_generation_of(name, kinds, Ok(v)),
    ensures
        forall|k: int|
            #![trigger kinds[k]]
            0 <= k < kinds.len() ==> exists|i: int|
                0 <= i < v.methods.len() && method_name(v.methods[i].ident@) == method_name(
                    sanitize(kinds[k]),
                ) && forall|i2: int|
                    0 <= i2 < v.methods.len() && method_name(#[trigger] v.methods[i2].ident@)
                        == method_name(sanitize(kinds[k])) ==> i2 == i,
{
    let mk = method_kinds(kinds);
    lemma_method_kinds(kinds);
    assert forall|k: int| #![trigger kinds[k]] 0 <= k < kinds.len() implies exists|i: int|
        0 <= i < v.methods.len() && method_name(v.methods[i].ident@) == method_name(
            sanitize(kinds[k]),
        ) && forall|i2: int|
            0 <= i2 < v.methods.len() && method_name(#[trigger] v.methods[i2].ident@)
                == method_name(sanitize(kinds[k])) ==> i2 == i by {
        assert(mk.contains(kinds[k]));
        let i = choose|i: int| 0 <= i < mk.len() && mk[i] == kinds[k];
        assert(v.method_raws()[i] == v.methods[i].raw_name@);
        assert forall|i2: int|
            0 <= i2 < v.methods.len() && method_name(#[trigger] v.methods[i2].ident@)
                == method_name(sanitize(kinds[k])) implies i2 == i by {
            lemma_method_name_injective(v.methods[i2].ident@, sanitize(kinds[k]));
            let r2 = v.methods[i2].raw_name@;
            assert(v.method_raws()[i2] == r2);
            assert(mk.contains(r2));
            assert(kinds.contains(r2));
            let w = choose|w: int| 0 <= w < kinds.len() && kinds[w] == r2;
            if r2 != kinds[k] {
                assert(sanitize(kinds[w]) == sanitize(kinds[k]));
                assert(has_collision(kinds));
            }
        }
    }
}

/// The first method whose raw name is `raw` or whose identifier is `ident`.
fn find_slot(methods: &Vec<GeneratedMethod>, raw: &String, ident: &String) -> (r: Option<usize>)
    ensures
        match r {
            Some(j) => j < methods.len() && (methods[j as int].raw_name@ == raw@
                || methods[j as int].ident@ == ident@),
            None => forall|a: int|
                0 <= a < methods.len() ==> methods[a].raw_name@ != raw@ && methods[a].ident@
                    != ident@,
        },
{
    let mut j: usize = 0;
    while j < methods.len()
        invariant
            j <= methods.len(),
            forall|a: int|
                0 <= a < j ==> methods[a].raw_name@ != raw@ && methods[a].ident@ != ident@,
        decreases methods.len() - j,
    {
        if methods[j].raw_name == *raw || methods[j].ident == *ident {
            return Some(j);
        }
        j = j + 1;
    }
    None
}

/// Builds the visitor interface named `name` for the schema `kinds`.
///
/// Raw names that repeat exactly share one method and each keep their own
/// dispatch arm. Two different raw names with the same sanitized identifier
/// are rejected with `GenerateError::Collision`.
pub fn generate_visitor(name: &str, kinds: &Vec<String>) -> (r: Result<
    VisitorInterface,
    GenerateError,
>)
    ensures
        is_generation_of(name@, kinds_view(kinds@), r),
{
    let ghost kv = kinds_view(kinds@);
    let mut methods: Vec<GeneratedMethod> = Vec::new();
    let mut arms: Vec<DispatchArm> = Vec::new();
    let mut i: usize = 0;
    while i < kinds.len()
        invariant
            kv == kinds_view(kinds@),
            i <= kinds.len(),
            !has_collision(kv.take(i as int)),
            methods@.map_values(|m: GeneratedMethod| m.raw_name@) == method_kinds(
                kv.take(i as int),
            ),
            forall|a: int|
                0 <= a < methods.len() ==> #[trigger] methods[a].ident@ == sanitize(
                    methods[a].raw_name@,
                ),
            arms.len() == i,
            forall|k: int|
                0 <= k < i ==> #[trigger] arms[k].raw_name@ == kv[k] && arms[k].method
                    < methods.len() && methods[arms[k].method as int].raw_name@ == kv[k],
        decreases kinds.len() - i,
    {
        let ghost pre = kv.take(i as int);
        let ghost cur = kv.take(i + 1);
        let ghost mr = methods@.map_values(|m: GeneratedMethod| m.raw_name@);
        proof {
            assert(cur.drop_last() =~= pre);
            assert(cur.last() == kv[i as int]);
            lemma_method_kinds(pre);
        }
        let raw = &kinds[i];
        assert(raw@ == kv[i as int]);
        let ident = sanitize_identifier(raw.as_str());
        match find_slot(&methods, raw, &ident) {
            None => {
                proof {
                    assert(!mr.contains(raw@)) by {
                        if mr.contains(raw@) {
                            let a = choose|a: int| 0 <= a < mr.len() && mr[a] == raw@;
                            assert(methods[a].raw_name@ == raw@);
                        }
                    }
                    assert(!has_collision(cur)) by {
                        if has_collision(cur) {
                            let (a, b) = choose|a: int, b: int|
                                0 <= a < cur.len() && 0 <= b < cur.len() && cur[a] != cur[b]
                                    && #[trigger] sanitize(cur[a]) == #[trigger] sanitize(cur[b]);
                            let o = if a == i { b } else { a };
                            assert(o < i) by {
                                if a < i && b < i {
                                    assert(pre[a] == cur[a] && pre[b] == cur[b]);
                                }
                            }
                            assert(mr.contains(pre[o]));
                            let m = choose|m: int| 0 <= m < mr.len() && mr[m] == pre[o];
                            assert(methods[m].ident@ == sanitize(pre[o]));
                        }
                    }
                }
                let ghost old_methods = methods@;
                let ghost old_arms = arms@;
                methods.push(GeneratedMethod { raw_name: raw.clone(), ident });
                arms.push(DispatchArm { raw_name: raw.clone(), method: methods.len() - 1 });
                assert(methods@.map_values(|m: GeneratedMethod| m.raw_name@) =~= mr.push(raw@));
                assert forall|k: int| 0 <= k < i + 1 implies #[trigger] arms[k].raw_name@ == kv[k]
                    && arms[k].method < methods.len() && methods[arms[k].method as int].raw_name@
                    == kv[k] by {
                    if k < i {
                        assert(arms[k] == old_arms[k]);
                        assert(old_arms[k].raw_name@ == kv[k]);
                        assert(methods[arms[k].method as int] == old_methods[arms[k].method as int]);
                    }
                }
            },
            Some(j) => {
                if methods[j].raw_name == *raw {
                    proof {
                        assert(mr[j as int] == raw@);
                        assert(mr.contains(raw@));
                        assert(!has_collision(cur)) by {
                            if has_collision(cur) {
                                let (a, b) = choose|a: int, b: int|
                                    0 <= a < cur.len() && 0 <= b < cur.len() && cur[a] != cur[b]
                                        && #[trigger] sanitize(cur[a]) == #[trigger] sanitize(
                                        cur[b],
                                    );
                                let o = if a == i { b } else { a };
                                assert(o < i) by {
                                    if a < i && b < i {
                                        assert(pre[a] == cur[a] && pre[b] == cur[b]);
                                    }
                                }
                                assert(pre[o] == cur[o]);
                                assert(pre.contains(raw@));
                                let w = choose|w: int| 0 <= w < pre.len() && pre[w] == raw@;
                                assert(sanitize(pre[o]) == sanitize(pre[w]));
                                assert(has_collision(pre));
                            }
                        }
                    }
                    arms.push(DispatchArm { raw_name: raw.clone(), method: j });
                } else {
                    proof {
                        assert(methods[j as int].ident@ == ident@);
                        assert(mr[j as int] == methods[j as int].raw_name@);
                        assert(pre.contains(mr[j as int]));
                        let w = choose|w: int| 0 <= w < pre.len() && pre[w] == mr[j as int];
                        assert(kv[w] == pre[w]);
                        assert(sanitize(kv[w]) == sanitize(kv[i as int]));
                        assert(has_collision(kv));
                        assert(pre[w] == mr[j as int]);
                    }
                    let first = methods[j].raw_name.clone();
                    let second = raw.clone();
                    let e = GenerateError::Collision { first, second };
                    assert(collision_reported(kv, e)) by {
                        assert(first_collision_at(kv, i as int, e->first@, e->second@));
                    }
                    return Err(e);
                }
            },
        }
        i = i + 1;
    }
    assert(kv.take(i as int) =~= kv);
    let v = VisitorInterface { name: String::from_str(name), methods, arms };
    assert(v.arm_raws() =~= kv);
    assert forall|k: int| 0 <= k < v.arms.len() implies #[trigger] v.arms[k].method < v.methods.len()
        && v.methods[v.arms[k].method as int].raw_name@ == v.arms[k].raw_name@ by {
        assert(v.arms[k].raw_name@ == kv[k]);
    }
    Ok(v)
}

} // verus!
