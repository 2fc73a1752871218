//! Event payload schemas and the additive-only evolution policy.
//!
//! A schema lists a payload struct's fields in declaration order, which is
//! the order in which Soroban serialises them. Between two releases a schema
//! may only grow at its end, and a field appended to an existing schema must
//! have a type with a safe default.

use vstd::prelude::*;

use crate::text::{
    chars_of, replace_all, replaced, same_chars, trim, trimmed, occurs_at, matches_at,
    is_whitespace_spec, lemma_trim_after_prefix, lemma_replace_after_prefix, lemma_replace_at_start,
};

verus! {

/// One field of a payload struct: its name and its declared type.
#[derive(Clone, Debug, PartialEq, Eq)]
pub struct EventField {
    pub name: Vec<char>,
    pub typ: Vec<char>,
}

/// The shape of a payload struct: its name and its fields in declaration order.
#[derive(Clone, Debug, PartialEq, Eq)]
pub struct EventSchema {
    pub struct_name: Vec<char>,
    pub fields: Vec<EventField>,
}

impl EventField {
    /// The field `name: typ`.
    pub fn new(name: &str, typ: &str) -> (f: EventField)
        ensures
            f.name@ == name@,
            f.typ@ == typ@,
    {
        EventField { name: chars_of(name), typ: chars_of(typ) }
    }
}

impl EventSchema {
    /// The struct `struct_name` with the given fields.
    pub fn new(struct_name: &str, fields: Vec<EventField>) -> (s: EventSchema)
        ensures
            s.struct_name@ == struct_name@,
            s.fields == fields,
    {
        EventSchema { struct_name: chars_of(struct_name), fields }
    }
}

/// A type written in its comparable form: trimmed, without the
/// `soroban_sdk::` and `crate::` prefixes, and without spaces around `<`,
/// `>` and `,`.
pub open spec fn normalized(raw: Seq<char>) -> Seq<char> {
    let s = trim(raw);
    let s = replace_all(s, "soroban_sdk::"@, ""@);
    let s = replace_all(s, "crate::"@, ""@);
    let s = replace_all(s, " >"@, ">"@);
    let s = replace_all(s, "> "@, ">"@);
    let s = replace_all(s, " ,"@, ","@);
    let s = replace_all(s, ", "@, ","@);
    let s = replace_all(s, "< "@, "<"@);
    let s = replace_all(s, " <"@, "<"@);
    trim(s)
}

/// The `soroban_sdk::` and `crate::` paths make no difference to a type's
/// comparable form: a type written with either path in front compares
/// equal to the type written without it.
pub proof fn lemma_paths_do_not_matter(t: Seq<char>)
    requires
        t.len() > 0,
        !is_whitespace_spec(t[0]),
    ensures
        normalized("soroban_sdk::"@ + t) == normalized(t),
        normalized("crate::"@ + t) == normalized(t),
{
    reveal_strlit("soroban_sdk::");
    reveal_strlit("crate::");
    reveal_strlit("");
    let sdk = "soroban_sdk::"@;
    let krate = "crate::"@;
    let x = trim(t);
    lemma_trim_after_prefix(sdk, t);
    lemma_replace_at_start(x, sdk, ""@);
    assert(""@ + replace_all(x, sdk, ""@) =~= replace_all(x, sdk, ""@));
    lemma_trim_after_prefix(krate, t);
    assert forall|m: int| 0 <= m < krate.len() implies #[trigger] krate[m] != sdk[0] by {}
    lemma_replace_after_prefix(krate, x, sdk, ""@);
    let y = replace_all(x, sdk, ""@);
    lemma_replace_at_start(y, krate, ""@);
    assert(""@ + replace_all(y, krate, ""@) =~= replace_all(y, krate, ""@));
}

/// The comparable form of a type.
pub fn normalize_type(raw: &[char]) -> (r: Vec<char>)
    ensures
        r@ == normalized(raw@),
{
    proof {
        reveal_strlit("soroban_sdk::");
        reveal_strlit("crate::");
        reveal_strlit(" >");
        reveal_strlit("> ");
        reveal_strlit(" ,");
        reveal_strlit(", ");
        reveal_strlit("< ");
        reveal_strlit(" <");
    }
    let empty: Vec<char> = Vec::new();
    let s = trimmed(raw);
    let s = replaced(&s, &chars_of("soroban_sdk::"), &empty);
    let s = replaced(&s, &chars_of("crate::"), &empty);
    let s = replaced(&s, &chars_of(" >"), &chars_of(">"));
    let s = replaced(&s, &chars_of("> "), &chars_of(">"));
    let s = replaced(&s, &chars_of(" ,"), &chars_of(","));
    let s = replaced(&s, &chars_of(", "), &chars_of(","));
    let s = replaced(&s, &chars_of("< "), &chars_of("<"));
    let s = replaced(&s, &chars_of(" <"), &chars_of("<"));
    proof {
        reveal_strlit("");
        assert(empty@ =~= ""@);
    }
    trimmed(&s)
}


/// A type whose value has a safe default for old parsers: an `Option`, a
/// `bool`, or an integer (`u64`, `u32`, `i128`).
pub open spec fn has_safe_default(typ: Seq<char>) -> bool {
    let t = normalized(typ);
    ||| occurs_at(t, "Option<"@, 0)
    ||| t == "bool"@
    ||| t == "u64"@
    ||| t == "u32"@
    ||| t == "i128"@
}

/// A type has a safe default exactly when its comparable form begins with
/// `Option<`, or is `bool`, `u64`, `u32` or `i128`; an `Option` nested
/// deeper inside another type does not count.
pub proof fn lemma_safe_default_types(typ: Seq<char>)
    ensures
        has_safe_default(typ) <==> {
            let t = normalized(typ);
            ||| (t.len() >= 7 && t.take(7) == "Option<"@)
            ||| t == "bool"@
            ||| t == "u64"@
            ||| t == "u32"@
            ||| t == "i128"@
        },
{
    reveal_strlit("Option<");
    let t = normalized(typ);
    if t.len() >= 7 {
        assert(t.subrange(0, 7) == t.take(7));
    }
}

/// A map or a vector has no safe default, whatever it holds.
pub proof fn lemma_collections_have_no_safe_default(typ: Seq<char>)
    requires
        normalized(typ).len() >= 4,
        normalized(typ).take(4) == "Map<"@ || normalized(typ).take(4) == "Vec<"@,
    ensures
        !has_safe_default(typ),
{
    reveal_strlit("Option<");
    reveal_strlit("Map<");
    reveal_strlit("Vec<");
    reveal_strlit("bool");
    reveal_strlit("u64");
    reveal_strlit("u32");
    reveal_strlit("i128");
    let t = normalized(typ);
    assert(t[0] == t.take(4)[0]);
    assert(t[3] == t.take(4)[3]);
    if occurs_at(t, "Option<"@, 0) {
        assert(t[0] == t.subrange(0, 7)[0]);
    }
    if t == "bool"@ {
        assert(t[0] == 'b');
    }
    if t == "i128"@ {
        assert(t[0] == 'i');
    }
}

/// Whether a newly appended field of type `typ` has a safe default.
pub fn is_safe_default_type(typ: &[char]) -> (r: bool)
    ensures
        r == has_safe_default(typ@),
{
    let t = normalize_type(typ);
    matches_at(&t, &chars_of("Option<"), 0) || same_chars(&t, &chars_of("bool")) || same_chars(
        &t,
        &chars_of("u64"),
    ) || same_chars(&t, &chars_of("u32")) || same_chars(&t, &chars_of("i128"))
}

/// `reg[i]` is the first schema of `reg` named `name`.
pub open spec fn is_first_named(reg: Seq<EventSchema>, name: Seq<char>, i: int) -> bool {
    &&& 0 <= i < reg.len()
    &&& reg[i].struct_name@ == name
    &&& forall|j: int| 0 <= j < i ==> reg[j].struct_name@ != name
}

/// The position of the first schema of `reg` named `name`, if any.
pub open spec fn first_named(reg: Seq<EventSchema>, name: Seq<char>) -> Option<int> {
    if exists|i: int| is_first_named(reg, name, i) {
        Some(choose|i: int| is_first_named(reg, name, i))
    } else {
        None
    }
}

/// The first schema named `name` is at `i` whenever `i` satisfies the description.
pub proof fn lemma_first_named_at(reg: Seq<EventSchema>, name: Seq<char>, i: int)
    requires
        is_first_named(reg, name, i),
    ensures
        first_named(reg, name) == Some(i),
{
    let k = choose|k: int| is_first_named(reg, name, k);
    assert(is_first_named(reg, name, k));
    if k < i {
        assert(reg[k].struct_name@ != name);
    } else if k > i {
        assert(reg[i].struct_name@ != name);
    }
}

/// The position of the first schema of `reg` named `name`, if any.
pub fn find_schema(reg: &[EventSchema], name: &[char]) -> (r: Option<usize>)
    ensures
        match r {
            Some(i) => first_named(reg@, name@) == Some(i as int),
            None => first_named(reg@, name@) is None,
        },
{
    let mut i: usize = 0;
    while i < reg.len()
        invariant
            i <= reg.len(),
            forall|j: int| 0 <= j < i ==> reg@[j].struct_name@ != name@,
        decreases reg.len() - i,
    {
        if same_chars(&reg[i].struct_name, name) {
            proof {
                lemma_first_named_at(reg@, name@, i as int);
            }
            return Some(i);
        }
        i = i + 1;
    }
    None
}

/// A way in which a schema of the baseline fails to survive in the current registry.
#[derive(Clone, Copy, Debug, PartialEq, Eq)]
pub enum EvolutionViolation {
    /// No current schema has the name of baseline schema `baseline`.
    MissingEvent { baseline: usize },
    /// The current schema has no field at `ordinal`, where the baseline schema has one.
    MissingField { baseline: usize, current: usize, ordinal: usize },
    /// The field at `ordinal` has another name in the current schema.
    FieldRenamed { baseline: usize, current: usize, ordinal: usize },
    /// The field at `ordinal` has another (normalized) type in the current schema.
    FieldRetyped { baseline: usize, current: usize, ordinal: usize },
}

/// The violations found at field `i` of baseline schema `bi` against current schema `ci`.
pub open spec fn field_violations_at(
    baseline: Seq<EventSchema>,
    current: Seq<EventSchema>,
    bi: int,
    ci: int,
    i: int,
) -> Seq<EvolutionViolation> {
    let bf = baseline[bi].fields@[i];
    let cfs = current[ci].fields@;
    if i >= cfs.len() {
        seq![
            EvolutionViolation::MissingField {
                baseline: bi as usize,
                current: ci as usize,
                ordinal: i as usize,
            },
        ]
    } else {
        (if cfs[i].name@ != bf.name@ {
            seq![
                EvolutionViolation::FieldRenamed {
                    baseline: bi as usize,
                    current: ci as usize,
                    ordinal: i as usize,
                },
            ]
        } else {
            Seq::empty()
        }) + (if normalized(cfs[i].typ@) != normalized(bf.typ@) {
            seq![
                EvolutionViolation::FieldRetyped {
                    baseline: bi as usize,
                    current: ci as usize,
                    ordinal: i as usize,
                },
            ]
        } else {
            Seq::empty()
        })
    }
}

/// The violations found at the first `n` fields of baseline schema `bi`, in order.
pub open spec fn field_violations(
    baseline: Seq<EventSchema>,
    current: Seq<EventSchema>,
    bi: int,
    ci: int,
    n: int,
) -> Seq<EvolutionViolation>
    decreases n,
{
    if n <= 0 {
        Seq::empty()
    } else {
        field_violations(baseline, current, bi, ci, n - 1) + field_violations_at(
            baseline,
            current,
            bi,
            ci,
            n - 1,
        )
    }
}

/// The violations found at baseline schema `bi`.
pub open spec fn schema_violations(
    baseline: Seq<EventSchema>,
    current: Seq<EventSchema>,
    bi: int,
) -> Seq<EvolutionViolation> {
    match first_named(current, baseline[bi].struct_name@) {
        None => seq![EvolutionViolation::MissingEvent { baseline: bi as usize }],
        Some(ci) => field_violations(baseline, current, bi, ci, baseline[bi].fields@.len() as int),
    }
}

/// The violations found at the first `n` baseline schemas, in order.
pub open spec fn violations_upto(
    baseline: Seq<EventSchema>,
    current: Seq<EventSchema>,
    n: int,
) -> Seq<EvolutionViolation>
    decreases n,
{
    if n <= 0 {
        Seq::empty()
    } else {
        violations_upto(baseline, current, n - 1) + schema_violations(baseline, current, n - 1)
    }
}

/// Every violation of the additive-only policy by `current` against `baseline`,
/// baseline schema by baseline schema and field by field.
pub open spec fn evolution_violations(
    baseline: Seq<EventSchema>,
    current: Seq<EventSchema>,
) -> Seq<EvolutionViolation> {
    violations_upto(baseline, current, baseline.len() as int)
}

/// The violations found at field `i` of baseline schema `bi` against current schema `ci`.
fn check_field(
    baseline: &[EventSchema],
    current: &[EventSchema],
    bi: usize,
    ci: usize,
    i: usize,
    out: &mut Vec<EvolutionViolation>,
)
    requires
        bi < baseline@.len(),
        ci < current@.len(),
        i < baseline@[bi as int].fields@.len(),
    ensures
        final(out)@ == old(out)@ + field_violations_at(baseline@, current@, bi as int, ci as int, i as int),
{
    let bf = &baseline[bi].fields[i];
    let c = &current[ci];
    if i >= c.fields.len() {
        out.push(EvolutionViolation::MissingField { baseline: bi, current: ci, ordinal: i });
        return ;
    }
    let ghost o = out@;
    let cf = &c.fields[i];
    let renamed = !same_chars(&cf.name, &bf.name);
    if renamed {
        out.push(EvolutionViolation::FieldRenamed { baseline: bi, current: ci, ordinal: i });
    }
    let retyped = !same_chars(&normalize_type(&cf.typ), &normalize_type(&bf.typ));
    if retyped {
        out.push(EvolutionViolation::FieldRetyped { baseline: bi, current: ci, ordinal: i });
    }
    assert(out@ =~= o + field_violations_at(baseline@, current@, bi as int, ci as int, i as int));
}

/// Every violation of the additive-only policy by `current` against
/// `baseline`: a baseline schema with no current schema of its name, or a
/// baseline field missing, renamed or retyped at its ordinal in the first
/// current schema of that name.
pub fn evolution_violations_of(baseline: &[EventSchema], current: &[EventSchema]) -> (r: Vec<
    EvolutionViolation,
>)
    ensures
        r@ == evolution_violations(baseline@, current@),
{
    let mut out: Vec<EvolutionViolation> = Vec::new();
    let mut bi: usize = 0;
    while bi < baseline.len()
        invariant
            bi <= baseline@.len(),
            out@ == violations_upto(baseline@, current@, bi as int),
        decreases baseline.len() - bi,
    {
        let ghost before = out@;
        match find_schema(current, &baseline[bi].struct_name) {
            None => {
                out.push(EvolutionViolation::MissingEvent { baseline: bi });
            },
            Some(ci) => {
                let n = baseline[bi].fields.len();
                let mut i: usize = 0;
                while i < n
                    invariant
                        bi < baseline@.len(),
                        ci < current@.len(),
                        n == baseline@[bi as int].fields@.len(),
                        i <= n,
                        out@ == before + field_violations(
                            baseline@,
                            current@,
                            bi as int,
                            ci as int,
                            i as int,
                        ),
                    decreases n - i,
                {
                    check_field(baseline, current, bi, ci, i, &mut out);
                    assert(out@ =~= before + field_violations(
                        baseline@,
                        current@,
                        bi as int,
                        ci as int,
                        i + 1,
                    ));
                    i = i + 1;
                }
            },
        }
        assert(out@ =~= violations_upto(baseline@, current@, bi + 1));
        bi = bi + 1;
    }
    out
}


/// What a violation reported at one baseline field says, independently of
/// how the check walks the registries.
pub open spec fn field_violation_holds(
    baseline: Seq<EventSchema>,
    current: Seq<EventSchema>,
    v: EvolutionViolation,
) -> bool {
    match v {
        EvolutionViolation::MissingEvent { baseline: b } => {
            &&& b < baseline.len()
            &&& first_named(current, baseline[b as int].struct_name@) is None
        },
        EvolutionViolation::MissingField { baseline: b, current: c, ordinal: i } => {
            &&& b < baseline.len()
            &&& first_named(current, baseline[b as int].struct_name@) == Some(c as int)
            &&& current[c as int].fields@.len() <= i < baseline[b as int].fields@.len()
        },
        EvolutionViolation::FieldRenamed { baseline: b, current: c, ordinal: i } => {
            &&& b < baseline.len()
            &&& first_named(current, baseline[b as int].struct_name@) == Some(c as int)
            &&& i < baseline[b as int].fields@.len()
            &&& i < current[c as int].fields@.len()
            &&& current[c as int].fields@[i as int].name@ != baseline[b as int].fields@[i as int].name@
        },
        EvolutionViolation::FieldRetyped { baseline: b, current: c, ordinal: i } => {
            &&& b < baseline.len()
            &&& first_named(current, baseline[b as int].struct_name@) == Some(c as int)
            &&& i < baseline[b as int].fields@.len()
            &&& i < current[c as int].fields@.len()
            &&& normalized(current[c as int].fields@[i as int].typ@) != normalized(
                baseline[b as int].fields@[i as int].typ@,
            )
        },
    }
}

proof fn lemma_field_violations_members(
    baseline: Seq<EventSchema>,
    current: Seq<EventSchema>,
    bi: int,
    ci: int,
    n: int,
    v: EvolutionViolation,
)
    requires
        0 <= n,
    ensures
        field_violations(baseline, current, bi, ci, n).contains(v) <==> exists|i: int|
            0 <= i < n && #[trigger] field_violations_at(baseline, current, bi, ci, i).contains(v),
    decreases n,
{
    if n > 0 {
        lemma_field_violations_members(baseline, current, bi, ci, n - 1, v);
        let a = field_violations(baseline, current, bi, ci, n - 1);
        let b = field_violations_at(baseline, current, bi, ci, n - 1);
        assert(field_violations(baseline, current, bi, ci, n) == a + b);
        if (a + b).contains(v) {
            let j = choose|j: int| 0 <= j < (a + b).len() && (a + b)[j] == v;
            if j < a.len() {
                assert(a[j] == v);
                assert(a.contains(v));
            } else {
                assert(b[j - a.len()] == v);
                assert(b.contains(v));
            }
        }
        if exists|i: int| 0 <= i < n && #[trigger] field_violations_at(baseline, current, bi, ci, i).contains(v) {
            let i = choose|i: int| 0 <= i < n && #[trigger] field_violations_at(baseline, current, bi, ci, i).contains(v);
            if i < n - 1 {
                assert(a.contains(v));
                let j = choose|j: int| 0 <= j < a.len() && a[j] == v;
                assert((a + b)[j] == v);
            } else {
                let j = choose|j: int| 0 <= j < b.len() && b[j] == v;
                assert((a + b)[a.len() + j] == v);
            }
            assert((a + b).contains(v));
        }
    }
}

proof fn lemma_violations_upto_members(
    baseline: Seq<EventSchema>,
    current: Seq<EventSchema>,
    n: int,
    v: EvolutionViolation,
)
    requires
        0 <= n,
    ensures
        violations_upto(baseline, current, n).contains(v) <==> exists|k: int|
            0 <= k < n && #[trigger] schema_violations(baseline, current, k).contains(v),
    decreases n,
{
    if n > 0 {
        lemma_violations_upto_members(baseline, current, n - 1, v);
        let a = violations_upto(baseline, current, n - 1);
        let b = schema_violations(baseline, current, n - 1);
        assert(violations_upto(baseline, current, n) == a + b);
        if (a + b).contains(v) {
            let j = choose|j: int| 0 <= j < (a + b).len() && (a + b)[j] == v;
            if j < a.len() {
                assert(a[j] == v);
                assert(a.contains(v));
            } else {
                assert(b[j - a.len()] == v);
                assert(b.contains(v));
            }
        }
        if exists|k: int| 0 <= k < n && #[trigger] schema_violations(baseline, current, k).contains(v) {
            let k = choose|k: int| 0 <= k < n && #[trigger] schema_violations(baseline, current, k).contains(v);
            if k < n - 1 {
                assert(a.contains(v));
                let j = choose|j: int| 0 <= j < a.len() && a[j] == v;
                assert((a + b)[j] == v);
            } else {
                let j = choose|j: int| 0 <= j < b.len() && b[j] == v;
                assert((a + b)[a.len() + j] == v);
            }
            assert((a + b).contains(v));
        }
    }
}

/// The evolution check reports exactly the ways in which the baseline fails
/// to survive: a violation is reported if and only if what it says holds. In
/// particular every baseline field beyond the end of the current schema is
/// reported missing, each on its own, and every field renamed or retyped at
/// its ordinal is reported.
pub proof fn lemma_evolution_violations_members(
    baseline: Seq<EventSchema>,
    current: Seq<EventSchema>,
    v: EvolutionViolation,
)
    requires
        baseline.len() <= usize::MAX,
        current.len() <= usize::MAX,
        forall|bi: int| 0 <= bi < baseline.len() ==> (#[trigger] baseline[bi]).fields@.len() <= usize::MAX,
    ensures
        evolution_violations(baseline, current).contains(v) <==> field_violation_holds(
            baseline,
            current,
            v,
        ),
{
    lemma_violations_upto_members(baseline, current, baseline.len() as int, v);
    if evolution_violations(baseline, current).contains(v) {
        let k = choose|k: int|
            0 <= k < baseline.len() && #[trigger] schema_violations(baseline, current, k).contains(v);
        let name = baseline[k].struct_name@;
        match first_named(current, name) {
            None => {
                assert(schema_violations(baseline, current, k)[0] == v);
                assert(k as usize as int == k);
                assert(field_violation_holds(baseline, current, v));
            },
            Some(ci) => {
                let w = choose|w: int| is_first_named(current, name, w);
                assert(is_first_named(current, name, w));
                let n = baseline[k].fields@.len() as int;
                lemma_field_violations_members(baseline, current, k, ci, n, v);
                let i = choose|i: int|
                    0 <= i < n && #[trigger] field_violations_at(baseline, current, k, ci, i).contains(v);
                let fv = field_violations_at(baseline, current, k, ci, i);
                let j = choose|j: int| 0 <= j < fv.len() && fv[j] == v;
                assert(baseline[k].fields@.len() <= usize::MAX);
                assert(k as usize as int == k);
                assert(ci as usize as int == ci);
                assert(i as usize as int == i);
                if i >= current[ci].fields@.len() {
                    assert(v == EvolutionViolation::MissingField {
                        baseline: k as usize,
                        current: ci as usize,
                        ordinal: i as usize,
                    });
                    assert(first_named(current, baseline[k].struct_name@) == Some(ci));
                    assert(field_violation_holds(baseline, current, v));
                } else {
                    let cfs = current[ci].fields@;
                    let bf = baseline[k].fields@[i];
                    let r1 = if cfs[i].name@ != bf.name@ {
                        seq![
                            EvolutionViolation::FieldRenamed {
                                baseline: k as usize,
                                current: ci as usize,
                                ordinal: i as usize,
                            },
                        ]
                    } else {
                        Seq::empty()
                    };
                    if j < r1.len() {
                        assert(r1[j] == v);
                    } else {
                        assert(fv[j] == v);
                    }
                    assert(field_violation_holds(baseline, current, v));
                }
            },
        }
    }
    if field_violation_holds(baseline, current, v) {
        match v {
            EvolutionViolation::MissingEvent { baseline: b } => {
                let sv = schema_violations(baseline, current, b as int);
                assert(sv[0] == v);
                assert(sv.contains(v));
            },
            EvolutionViolation::MissingField { baseline: b, current: c, ordinal: i } => {
                let n = baseline[b as int].fields@.len() as int;
                let fv = field_violations_at(baseline, current, b as int, c as int, i as int);
                assert(fv[0] == v);
                assert(fv.contains(v));
                lemma_field_violations_members(baseline, current, b as int, c as int, n, v);
                assert(schema_violations(baseline, current, b as int).contains(v));
            },
            EvolutionViolation::FieldRenamed { baseline: b, current: c, ordinal: i } => {
                let n = baseline[b as int].fields@.len() as int;
                let fv = field_violations_at(baseline, current, b as int, c as int, i as int);
                assert(fv[0] == v);
                assert(fv.contains(v));
                lemma_field_violations_members(baseline, current, b as int, c as int, n, v);
                assert(schema_violations(baseline, current, b as int).contains(v));
            },
            EvolutionViolation::FieldRetyped { baseline: b, current: c, ordinal: i } => {
                let n = baseline[b as int].fields@.len() as int;
                let fv = field_violations_at(baseline, current, b as int, c as int, i as int);
                assert(fv[fv.len() - 1] == v);
                assert(fv.contains(v));
                lemma_field_violations_members(baseline, current, b as int, c as int, n, v);
                assert(schema_violations(baseline, current, b as int).contains(v));
            },
        }
    }
}

/// `current` keeps every field of `base` at its ordinal, with the same name
/// and the same normalized type; it may have more fields after them.
pub open spec fn extends_schema(base: EventSchema, current: EventSchema) -> bool {
    &&& base.fields@.len() <= current.fields@.len()
    &&& forall|i: int|
        0 <= i < base.fields@.len() ==> {
            &&& (#[trigger] current.fields@[i]).name@ == base.fields@[i].name@
            &&& normalized(current.fields@[i].typ@) == normalized(base.fields@[i].typ@)
        }
}

/// Every baseline schema survives in the first current schema of its name.
pub open spec fn is_additive_evolution(baseline: Seq<EventSchema>, current: Seq<EventSchema>) -> bool {
    forall|bi: int|
        0 <= bi < baseline.len() ==> match first_named(current, (#[trigger] baseline[bi]).struct_name@) {
            Some(ci) => extends_schema(baseline[bi], current[ci]),
            None => false,
        }
}

proof fn lemma_field_violations_empty(
    baseline: Seq<EventSchema>,
    current: Seq<EventSchema>,
    bi: int,
    ci: int,
    n: int,
)
    requires
        0 <= bi < baseline.len(),
        0 <= ci < current.len(),
        0 <= n <= baseline[bi].fields@.len(),
    ensures
        field_violations(baseline, current, bi, ci, n).len() == 0 <==> (n <= current[ci].fields@.len()
            && forall|i: int|
            0 <= i < n ==> {
                &&& (#[trigger] current[ci].fields@[i]).name@ == baseline[bi].fields@[i].name@
                &&& normalized(current[ci].fields@[i].typ@) == normalized(
                    baseline[bi].fields@[i].typ@,
                )
            }),
    decreases n,
{
    if n > 0 {
        lemma_field_violations_empty(baseline, current, bi, ci, n - 1);
    }
}

proof fn lemma_violations_upto_empty(baseline: Seq<EventSchema>, current: Seq<EventSchema>, n: int)
    requires
        0 <= n <= baseline.len(),
    ensures
        violations_upto(baseline, current, n).len() == 0 <==> forall|bi: int|
            0 <= bi < n ==> match first_named(current, (#[trigger] baseline[bi]).struct_name@) {
                Some(ci) => extends_schema(baseline[bi], current[ci]),
                None => false,
            },
    decreases n,
{
    if n > 0 {
        lemma_violations_upto_empty(baseline, current, n - 1);
        let b = baseline[n - 1];
        match first_named(current, b.struct_name@) {
            Some(ci) => {
                let k = choose|k: int| is_first_named(current, b.struct_name@, k);
                assert(is_first_named(current, b.struct_name@, k));
                lemma_field_violations_empty(baseline, current, n - 1, ci, b.fields@.len() as int);
            },
            None => {},
        }
    }
}

/// The policy check finds nothing exactly when the evolution is additive.
pub proof fn lemma_no_violations_iff_additive(baseline: Seq<EventSchema>, current: Seq<EventSchema>)
    ensures
        evolution_violations(baseline, current).len() == 0 <==> is_additive_evolution(
            baseline,
            current,
        ),
{
    lemma_violations_upto_empty(baseline, current, baseline.len() as int);
}

/// The struct names of `reg` are pairwise distinct.
pub open spec fn distinct_names(reg: Seq<EventSchema>) -> bool {
    forall|i: int, j: int|
        0 <= i < reg.len() && 0 <= j < reg.len() && i != j ==> (#[trigger] reg[i]).struct_name@
            != (#[trigger] reg[j]).struct_name@
}

/// In a registry whose names are distinct, each schema is the first of its name.
pub proof fn lemma_distinct_first_named(reg: Seq<EventSchema>, k: int)
    requires
        distinct_names(reg),
        0 <= k < reg.len(),
    ensures
        first_named(reg, reg[k].struct_name@) == Some(k),
{
    assert forall|j: int| 0 <= j < k implies reg[j].struct_name@ != reg[k].struct_name@ by {
        assert(reg[j] == reg[j] && reg[k] == reg[k]);
    }
    lemma_first_named_at(reg, reg[k].struct_name@, k);
}

/// Appending fields at the end of existing schemas, and new schemas at the
/// end of the registry, is an additive evolution.
pub proof fn lemma_appending_is_additive(baseline: Seq<EventSchema>, current: Seq<EventSchema>)
    requires
        distinct_names(current),
        baseline.len() <= current.len(),
        forall|k: int|
            0 <= k < baseline.len() ==> {
                &&& (#[trigger] current[k]).struct_name@ == baseline[k].struct_name@
                &&& baseline[k].fields@.len() <= current[k].fields@.len()
                &&& current[k].fields@.take(baseline[k].fields@.len() as int) == baseline[k].fields@
            },
    ensures
        is_additive_evolution(baseline, current),
        evolution_violations(baseline, current).len() == 0,
{
    assert forall|bi: int| 0 <= bi < baseline.len() implies match first_named(
        current,
        (#[trigger] baseline[bi]).struct_name@,
    ) {
        Some(ci) => extends_schema(baseline[bi], current[ci]),
        None => false,
    } by {
        assert(current[bi].struct_name@ == baseline[bi].struct_name@);
        lemma_distinct_first_named(current, bi);
        let n = baseline[bi].fields@.len() as int;
        assert forall|i: int| 0 <= i < n implies {
            &&& (#[trigger] current[bi].fields@[i]).name@ == baseline[bi].fields@[i].name@
            &&& normalized(current[bi].fields@[i].typ@) == normalized(baseline[bi].fields@[i].typ@)
        } by {
            assert(current[bi].fields@.take(n)[i] == current[bi].fields@[i]);
        }
    }
    lemma_no_violations_iff_additive(baseline, current);
}

/// A registry with distinct names is an additive evolution of itself.
pub proof fn lemma_registry_evolves_into_itself(reg: Seq<EventSchema>)
    requires
        distinct_names(reg),
    ensures
        is_additive_evolution(reg, reg),
        evolution_violations(reg, reg).len() == 0,
{
    assert forall|k: int| 0 <= k < reg.len() implies reg[k].fields@.take(
        reg[k].fields@.len() as int,
    ) == (#[trigger] reg[k]).fields@ by {
        assert(reg[k].fields@.take(reg[k].fields@.len() as int) =~= reg[k].fields@);
    }
    lemma_appending_is_additive(reg, reg);
}

/// Additive evolutions compose: two compatible releases in a row are
/// compatible with each other.
pub proof fn lemma_additive_evolution_transitive(
    a: Seq<EventSchema>,
    b: Seq<EventSchema>,
    c: Seq<EventSchema>,
)
    requires
        is_additive_evolution(a, b),
        is_additive_evolution(b, c),
    ensures
        is_additive_evolution(a, c),
{
    assert forall|ai: int| 0 <= ai < a.len() implies match first_named(
        c,
        (#[trigger] a[ai]).struct_name@,
    ) {
        Some(ci) => extends_schema(a[ai], c[ci]),
        None => false,
    } by {
        let name = a[ai].struct_name@;
        let bi = first_named(b, name)->0;
        let kb = choose|k: int| is_first_named(b, name, k);
        assert(is_first_named(b, name, kb));
        assert(b[bi] == b[bi]);
        let ci = first_named(c, b[bi].struct_name@)->0;
        let kc = choose|k: int| is_first_named(c, b[bi].struct_name@, k);
        assert(is_first_named(c, b[bi].struct_name@, kc));
        assert(extends_schema(a[ai], b[bi]));
        assert(extends_schema(b[bi], c[ci]));
        assert forall|i: int| 0 <= i < a[ai].fields@.len() implies {
            &&& (#[trigger] c[ci].fields@[i]).name@ == a[ai].fields@[i].name@
            &&& normalized(c[ci].fields@[i].typ@) == normalized(a[ai].fields@[i].typ@)
        } by {
            assert(b[bi].fields@[i] == b[bi].fields@[i]);
        }
    }
}


/// A field appended to an existing schema whose type has no safe default.
#[derive(Clone, Copy, Debug, PartialEq, Eq)]
pub struct DefaultViolation {
    /// The position of the schema in the current registry.
    pub current: usize,
    /// The field's ordinal.
    pub ordinal: usize,
}

/// How many fields the baseline knows for the schema named `name`: those of
/// its first schema of that name, or none for a new schema.
pub open spec fn baseline_field_count(baseline: Seq<EventSchema>, name: Seq<char>) -> int {
    match first_named(baseline, name) {
        Some(bi) => baseline[bi].fields@.len() as int,
        None => 0,
    }
}

/// The violations among the fields of current schema `ci` at ordinals
/// `from` up to `n`, in order.
pub open spec fn default_violations_between(
    current: Seq<EventSchema>,
    ci: int,
    from: int,
    n: int,
) -> Seq<DefaultViolation>
    decreases n - from,
{
    if n <= from {
        Seq::empty()
    } else {
        default_violations_between(current, ci, from, n - 1) + (if has_safe_default(
            current[ci].fields@[n - 1].typ@,
        ) {
            Seq::empty()
        } else {
            seq![DefaultViolation { current: ci as usize, ordinal: (n - 1) as usize }]
        })
    }
}

/// The violations found at the first `n` current schemas, in order.
pub open spec fn default_violations_upto(
    baseline: Seq<EventSchema>,
    current: Seq<EventSchema>,
    n: int,
) -> Seq<DefaultViolation>
    decreases n,
{
    if n <= 0 {
        Seq::empty()
    } else {
        default_violations_upto(baseline, current, n - 1) + default_violations_between(
            current,
            n - 1,
            baseline_field_count(baseline, current[n - 1].struct_name@),
            current[n - 1].fields@.len() as int,
        )
    }
}

/// Every field of `current` beyond the fields that `baseline` knows for its
/// schema whose type has no safe default, schema by schema and field by field.
pub open spec fn default_violations(baseline: Seq<EventSchema>, current: Seq<EventSchema>) -> Seq<
    DefaultViolation,
> {
    default_violations_upto(baseline, current, current.len() as int)
}

/// Every field of `current` beyond the fields that `baseline` knows for its
/// schema whose type has no safe default.
pub fn default_violations_of(baseline: &[EventSchema], current: &[EventSchema]) -> (r: Vec<
    DefaultViolation,
>)
    ensures
        r@ == default_violations(baseline@, current@),
{
    let mut out: Vec<DefaultViolation> = Vec::new();
    let mut ci: usize = 0;
    while ci < current.len()
        invariant
            ci <= current@.len(),
            out@ == default_violations_upto(baseline@, current@, ci as int),
        decreases current.len() - ci,
    {
        let c = &current[ci];
        let from: usize = match find_schema(baseline, &c.struct_name) {
            Some(bi) => baseline[bi].fields.len(),
            None => 0,
        };
        let ghost before = out@;
        let mut i: usize = from;
        if i < c.fields.len() {
            while i < c.fields.len()
                invariant
                    ci < current@.len(),
                    c == current@[ci as int],
                    from <= i <= c.fields@.len(),
                    out@ == before + default_violations_between(
                        current@,
                        ci as int,
                        from as int,
                        i as int,
                    ),
                decreases c.fields.len() - i,
            {
                if !is_safe_default_type(&c.fields[i].typ) {
                    out.push(DefaultViolation { current: ci, ordinal: i });
                }
                assert(out@ =~= before + default_violations_between(
                    current@,
                    ci as int,
                    from as int,
                    i + 1,
                ));
                i = i + 1;
            }
        }
        assert(out@ =~= default_violations_upto(baseline@, current@, ci + 1));
        ci = ci + 1;
    }
    out
}

proof fn lemma_default_violations_between_empty(
    current: Seq<EventSchema>,
    ci: int,
    from: int,
    n: int,
)
    ensures
        default_violations_between(current, ci, from, n).len() == 0 <==> forall|i: int|
            from <= i < n ==> has_safe_default((#[trigger] current[ci].fields@[i]).typ@),
    decreases n - from,
{
    if n > from {
        lemma_default_violations_between_empty(current, ci, from, n - 1);
    }
}

proof fn lemma_default_violations_upto_empty(
    baseline: Seq<EventSchema>,
    current: Seq<EventSchema>,
    n: int,
)
    requires
        0 <= n <= current.len(),
    ensures
        default_violations_upto(baseline, current, n).len() == 0 <==> forall|ci: int, i: int|
            0 <= ci < n && baseline_field_count(baseline, current[ci].struct_name@) <= i
                < current[ci].fields@.len() ==> has_safe_default(
                (#[trigger] current[ci].fields@[i]).typ@,
            ),
    decreases n,
{
    if n > 0 {
        lemma_default_violations_upto_empty(baseline, current, n - 1);
        lemma_default_violations_between_empty(
            current,
            n - 1,
            baseline_field_count(baseline, current[n - 1].struct_name@),
            current[n - 1].fields@.len() as int,
        );
    }
}

proof fn lemma_default_between_members(current: Seq<EventSchema>, ci: int, from: int, n: int, v: DefaultViolation)
    requires
        0 <= ci <= usize::MAX,
        0 <= from,
        n <= usize::MAX,
    ensures
        default_violations_between(current, ci, from, n).contains(v) <==> (v.current as int == ci
            && from <= v.ordinal < n && !has_safe_default(
            current[ci].fields@[v.ordinal as int].typ@,
        )),
    decreases n - from,
{
    if n > from {
        lemma_default_between_members(current, ci, from, n - 1, v);
        let a = default_violations_between(current, ci, from, n - 1);
        let b: Seq<DefaultViolation> = if has_safe_default(current[ci].fields@[n - 1].typ@) {
            Seq::empty()
        } else {
            seq![DefaultViolation { current: ci as usize, ordinal: (n - 1) as usize }]
        };
        assert(default_violations_between(current, ci, from, n) == a + b);
        assert((n - 1) as usize as int == n - 1);
        if (a + b).contains(v) {
            let j = choose|j: int| 0 <= j < (a + b).len() && (a + b)[j] == v;
            if j < a.len() {
                assert(a[j] == v);
                assert(a.contains(v));
            } else {
                assert(b[j - a.len()] == v);
            }
        }
        if v.current as int == ci && from <= v.ordinal < n && !has_safe_default(
            current[ci].fields@[v.ordinal as int].typ@,
        ) {
            if v.ordinal < n - 1 {
                let j = choose|j: int| 0 <= j < a.len() && a[j] == v;
                assert((a + b)[j] == v);
            } else {
                assert(v == b[0]);
                assert((a + b)[a.len() as int] == v);
            }
            assert((a + b).contains(v));
        }
    }
}

proof fn lemma_default_upto_members(
    baseline: Seq<EventSchema>,
    current: Seq<EventSchema>,
    n: int,
    v: DefaultViolation,
)
    requires
        0 <= n <= current.len(),
        current.len() <= usize::MAX,
        forall|ci: int| 0 <= ci < current.len() ==> (#[trigger] current[ci]).fields@.len() <= usize::MAX,
    ensures
        default_violations_upto(baseline, current, n).contains(v) <==> {
            let c = v.current as int;
            let i = v.ordinal as int;
            &&& c < n
            &&& baseline_field_count(baseline, current[c].struct_name@) <= i < current[c].fields@.len()
            &&& !has_safe_default(current[c].fields@[i].typ@)
        },
    decreases n,
{
    if n > 0 {
        lemma_default_upto_members(baseline, current, n - 1, v);
        let ci = n - 1;
        let from = baseline_field_count(baseline, current[ci].struct_name@);
        let len = current[ci].fields@.len() as int;
        assert(current[ci].fields@.len() <= usize::MAX);
        lemma_default_between_members(current, ci, from, len, v);
        let a = default_violations_upto(baseline, current, n - 1);
        let b = default_violations_between(current, ci, from, len);
        assert(default_violations_upto(baseline, current, n) == a + b);
        if (a + b).contains(v) {
            let j = choose|j: int| 0 <= j < (a + b).len() && (a + b)[j] == v;
            if j < a.len() {
                assert(a[j] == v);
                assert(a.contains(v));
            } else {
                assert(b[j - a.len()] == v);
                assert(b.contains(v));
            }
        }
        if a.contains(v) {
            let j = choose|j: int| 0 <= j < a.len() && a[j] == v;
            assert((a + b)[j] == v);
            assert((a + b).contains(v));
        }
        if b.contains(v) {
            let j = choose|j: int| 0 <= j < b.len() && b[j] == v;
            assert((a + b)[a.len() + j] == v);
            assert((a + b).contains(v));
        }
    }
}

/// The safe-default check reports exactly the appended fields without a
/// safe default: field `ordinal` of current schema `current` is reported if
/// and only if it lies beyond the fields that the baseline knows for that
/// schema's name and its type has no safe default.
pub proof fn lemma_default_violations_members(
    baseline: Seq<EventSchema>,
    current: Seq<EventSchema>,
    v: DefaultViolation,
)
    requires
        current.len() <= usize::MAX,
        forall|ci: int| 0 <= ci < current.len() ==> (#[trigger] current[ci]).fields@.len() <= usize::MAX,
    ensures
        default_violations(baseline, current).contains(v) <==> {
            let c = v.current as int;
            let i = v.ordinal as int;
            &&& c < current.len()
            &&& baseline_field_count(baseline, current[c].struct_name@) <= i < current[c].fields@.len()
            &&& !has_safe_default(current[c].fields@[i].typ@)
        },
{
    lemma_default_upto_members(baseline, current, current.len() as int, v);
}

/// The safe-default check finds nothing exactly when every field appended
/// beyond the baseline's fields has a type with a safe default.
pub proof fn lemma_no_default_violations_iff_safe(
    baseline: Seq<EventSchema>,
    current: Seq<EventSchema>,
)
    ensures
        default_violations(baseline, current).len() == 0 <==> forall|ci: int, i: int|
            0 <= ci < current.len() && baseline_field_count(baseline, current[ci].struct_name@)
                <= i < current[ci].fields@.len() ==> has_safe_default(
                (#[trigger] current[ci].fields@[i]).typ@,
            ),
{
    lemma_default_violations_upto_empty(baseline, current, current.len() as int);
}


/// A registry with distinct names, compared with itself, appends no field,
/// so it has no safe-default violations.
pub proof fn lemma_unchanged_registry_has_no_default_violations(reg: Seq<EventSchema>)
    requires
        distinct_names(reg),
    ensures
        default_violations(reg, reg).len() == 0,
{
    assert forall|ci: int, i: int|
        0 <= ci < reg.len() && baseline_field_count(reg, reg[ci].struct_name@) <= i
            < reg[ci].fields@.len() implies has_safe_default((#[trigger] reg[ci].fields@[i]).typ@) by {
        lemma_distinct_first_named(reg, ci);
    }
    lemma_no_default_violations_iff_safe(reg, reg);
}

} // verus!
