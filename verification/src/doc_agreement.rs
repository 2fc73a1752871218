//! Agreement between the schema registry and the payload shapes written
//! in the event documentation.

use vstd::prelude::*;

use crate::doc_schemas::{field_shape, field_shapes, shape, shapes, FieldShape, SchemaShape};
use crate::schema::{normalize_type, normalized, EventField, EventSchema};
use crate::text::{same_chars, views};

verus! {

/// A disagreement between the schema registry and the documented shapes.
#[derive(Clone, Copy, Debug, PartialEq, Eq)]
pub enum DocMismatch {
    /// No documented shape has the name of registry schema `registry`.
    NotDocumented { registry: usize },
    /// Field `field` of registry schema `registry` is not among the fields of
    /// documented shape `doc` (same name, same normalized type).
    FieldNotDocumented { registry: usize, doc: usize, field: usize },
    /// Field `field` of documented shape `doc` is not among the fields of
    /// registry schema `registry`.
    FieldNotInRegistry { registry: usize, doc: usize, field: usize },
    /// Documented shape `doc`, the first of its name, names no registry
    /// schema and no known non-event struct.
    NotInRegistry { doc: usize },
}

/// `docs[i]` is the last documented shape named `name`.
pub open spec fn is_last_named(docs: Seq<SchemaShape>, name: Seq<char>, i: int) -> bool {
    &&& 0 <= i < docs.len()
    &&& docs[i].0 == name
    &&& forall|j: int| i < j < docs.len() ==> docs[j].0 != name
}

/// The position of the last documented shape named `name`, if any.
pub open spec fn last_named(docs: Seq<SchemaShape>, name: Seq<char>) -> Option<int> {
    if exists|i: int| is_last_named(docs, name, i) {
        Some(choose|i: int| is_last_named(docs, name, i))
    } else {
        None
    }
}

/// A field of the same name and the same normalized type as `f` is among `fs`.
pub open spec fn field_listed(fs: Seq<FieldShape>, f: FieldShape) -> bool {
    exists|k: int| 0 <= k < fs.len() && fs[k].0 == f.0 && normalized(fs[k].1) == normalized(f.1)
}

/// For the first `n` fields of `from`, those not listed in `to`, as
/// mismatches built by `mk` from the field's position.
pub open spec fn unlisted(
    from: Seq<FieldShape>,
    to: Seq<FieldShape>,
    n: int,
    registry: int,
    doc: int,
    documented_side: bool,
) -> Seq<DocMismatch>
    decreases n,
{
    if n <= 0 {
        Seq::empty()
    } else {
        unlisted(from, to, n - 1, registry, doc, documented_side) + if field_listed(
            to,
            from[n - 1],
        ) {
            Seq::empty()
        } else if documented_side {
            seq![
                DocMismatch::FieldNotInRegistry {
                    registry: registry as usize,
                    doc: doc as usize,
                    field: (n - 1) as usize,
                },
            ]
        } else {
            seq![
                DocMismatch::FieldNotDocumented {
                    registry: registry as usize,
                    doc: doc as usize,
                    field: (n - 1) as usize,
                },
            ]
        }
    }
}

/// The mismatches of registry schema `i`: its name undocumented, or each
/// field on either side that the other side does not list.
pub open spec fn schema_mismatches(reg: Seq<SchemaShape>, docs: Seq<SchemaShape>, i: int) -> Seq<
    DocMismatch,
> {
    match last_named(docs, reg[i].0) {
        None => seq![DocMismatch::NotDocumented { registry: i as usize }],
        Some(d) => unlisted(reg[i].1, docs[d].1, reg[i].1.len() as int, i, d, false) + unlisted(
            docs[d].1,
            reg[i].1,
            docs[d].1.len() as int,
            i,
            d,
            true,
        ),
    }
}

/// The mismatches of the first `n` registry schemas, in order.
pub open spec fn forward_mismatches(reg: Seq<SchemaShape>, docs: Seq<SchemaShape>, n: int) -> Seq<
    DocMismatch,
>
    decreases n,
{
    if n <= 0 {
        Seq::empty()
    } else {
        forward_mismatches(reg, docs, n - 1) + schema_mismatches(reg, docs, n - 1)
    }
}

/// Some registry schema is named `name`.
pub open spec fn registered(reg: Seq<SchemaShape>, name: Seq<char>) -> bool {
    exists|i: int| 0 <= i < reg.len() && reg[i].0 == name
}

/// Documented shape `k` is the first of its name and names neither a
/// registry schema nor a known non-event struct.
pub open spec fn unregistered_at(
    reg: Seq<SchemaShape>,
    docs: Seq<SchemaShape>,
    known: Seq<Seq<char>>,
    k: int,
) -> bool {
    &&& forall|j: int| 0 <= j < k ==> docs[j].0 != docs[k].0
    &&& !registered(reg, docs[k].0)
    &&& !known.contains(docs[k].0)
}

/// The mismatches of the first `n` documented shapes, in order.
pub open spec fn reverse_mismatches(
    reg: Seq<SchemaShape>,
    docs: Seq<SchemaShape>,
    known: Seq<Seq<char>>,
    n: int,
) -> Seq<DocMismatch>
    decreases n,
{
    if n <= 0 {
        Seq::empty()
    } else {
        reverse_mismatches(reg, docs, known, n - 1) + if unregistered_at(reg, docs, known, n - 1) {
            seq![DocMismatch::NotInRegistry { doc: (n - 1) as usize }]
        } else {
            Seq::empty()
        }
    }
}

/// Every disagreement between the registry `reg` and the documented shapes
/// `docs`: first registry schema by registry schema, then documented shape
/// by documented shape, with the names in `known` exempt from the second part.
pub open spec fn doc_mismatches_spec(
    reg: Seq<SchemaShape>,
    docs: Seq<SchemaShape>,
    known: Seq<Seq<char>>,
) -> Seq<DocMismatch> {
    forward_mismatches(reg, docs, reg.len() as int) + reverse_mismatches(
        reg,
        docs,
        known,
        docs.len() as int,
    )
}

/// The position of the last schema of `docs` named `name`, if any.
fn find_last_named(docs: &[EventSchema], name: &[char]) -> (r: Option<usize>)
    ensures
        match r {
            Some(i) => last_named(shapes(docs@), name@) == Some(i as int) && i < docs@.len(),
            None => last_named(shapes(docs@), name@) is None,
        },
{
    let ghost d = shapes(docs@);
    let mut i: usize = docs.len();
    while i > 0
        invariant
            i <= docs@.len(),
            d == shapes(docs@),
            forall|j: int| i <= j < docs@.len() ==> d[j].0 != name@,
        decreases i,
    {
        if same_chars(&docs[i - 1].struct_name, name) {
            proof {
                assert(is_last_named(d, name@, i - 1));
                let k = choose|k: int| is_last_named(d, name@, k);
                assert(is_last_named(d, name@, k));
            }
            return Some(i - 1);
        }
        i = i - 1;
    }
    None
}

/// Whether a field of the same name and normalized type as `f` is among `fs`.
fn field_listed_in(fs: &Vec<EventField>, f: &EventField) -> (r: bool)
    ensures
        r == field_listed(field_shapes(fs@), field_shape(*f)),
{
    let ft = normalize_type(&f.typ);
    let mut k: usize = 0;
    while k < fs.len()
        invariant
            k <= fs@.len(),
            ft@ == normalized(f.typ@),
            forall|j: int|
                0 <= j < k ==> !(field_shapes(fs@)[j].0 == f.name@ && normalized(
                    field_shapes(fs@)[j].1,
                ) == normalized(f.typ@)),
        decreases fs.len() - k,
    {
        if same_chars(&fs[k].name, &f.name) && same_chars(&normalize_type(&fs[k].typ), &ft) {
            assert(field_shapes(fs@)[k as int] == field_shape(fs@[k as int]));
            return true;
        }
        k = k + 1;
    }
    false
}

/// The fields of `from` that `to` does not list, as mismatches.
fn unlisted_of(
    from: &Vec<EventField>,
    to: &Vec<EventField>,
    registry: usize,
    doc: usize,
    documented_side: bool,
    out: &mut Vec<DocMismatch>,
)
    ensures
        final(out)@ == old(out)@ + unlisted(
            field_shapes(from@),
            field_shapes(to@),
            from@.len() as int,
            registry as int,
            doc as int,
            documented_side,
        ),
{
    let ghost start = out@;
    let mut j: usize = 0;
    while j < from.len()
        invariant
            j <= from@.len(),
            out@ == start + unlisted(
                field_shapes(from@),
                field_shapes(to@),
                j as int,
                registry as int,
                doc as int,
                documented_side,
            ),
        decreases from.len() - j,
    {
        assert(field_shapes(from@)[j as int] == field_shape(from@[j as int]));
        if !field_listed_in(to, &from[j]) {
            if documented_side {
                out.push(DocMismatch::FieldNotInRegistry { registry, doc, field: j });
            } else {
                out.push(DocMismatch::FieldNotDocumented { registry, doc, field: j });
            }
        }
        assert(out@ =~= start + unlisted(
            field_shapes(from@),
            field_shapes(to@),
            j + 1,
            registry as int,
            doc as int,
            documented_side,
        ));
        j = j + 1;
    }
}

/// Every disagreement between the schema registry and the documented
/// shapes: a registry schema that no documented shape names; for the last
/// documented shape of its name, each registry field it does not list and
/// each of its fields the registry schema does not list (by name and
/// normalized type); and each documented name, taken at its first shape,
/// that names no registry schema and is not among `known_non_events`.
pub fn doc_mismatches(
    registry: &[EventSchema],
    docs: &[EventSchema],
    known_non_events: &Vec<Vec<char>>,
) -> (r: Vec<DocMismatch>)
    ensures
        r@ == doc_mismatches_spec(shapes(registry@), shapes(docs@), views(known_non_events@)),
{
    let ghost reg = shapes(registry@);
    let ghost ds = shapes(docs@);
    let mut out: Vec<DocMismatch> = Vec::new();
    let mut i: usize = 0;
    while i < registry.len()
        invariant
            i <= registry@.len(),
            reg == shapes(registry@),
            ds == shapes(docs@),
            out@ == forward_mismatches(reg, ds, i as int),
        decreases registry.len() - i,
    {
        assert(reg[i as int] == shape(registry@[i as int]));
        match find_last_named(docs, &registry[i].struct_name) {
            None => {
                out.push(DocMismatch::NotDocumented { registry: i });
            },
            Some(d) => {
                assert(ds[d as int] == shape(docs@[d as int]));
                unlisted_of(&registry[i].fields, &docs[d].fields, i, d, false, &mut out);
                unlisted_of(&docs[d].fields, &registry[i].fields, i, d, true, &mut out);
            },
        }
        assert(out@ =~= forward_mismatches(reg, ds, i + 1));
        i = i + 1;
    }
    let ghost forward = out@;
    let ghost kn = views(known_non_events@);
    let mut k: usize = 0;
    while k < docs.len()
        invariant
            k <= docs@.len(),
            reg == shapes(registry@),
            ds == shapes(docs@),
            kn == views(known_non_events@),
            forward == forward_mismatches(reg, ds, reg.len() as int),
            out@ == forward + reverse_mismatches(reg, ds, kn, k as int),
        decreases docs.len() - k,
    {
        assert(ds[k as int] == shape(docs@[k as int]));
        let name = &docs[k].struct_name;
        let mut first = true;
        let mut j: usize = 0;
        while j < k
            invariant
                j <= k < docs@.len(),
                ds == shapes(docs@),
                ds[k as int].0 == name@,
                first == forall|l: int| 0 <= l < j ==> ds[l].0 != ds[k as int].0,
            decreases k - j,
        {
            assert(ds[j as int] == shape(docs@[j as int]));
            if same_chars(&docs[j].struct_name, name) {
                first = false;
            }
            j = j + 1;
        }
        let mut in_registry = false;
        let mut i: usize = 0;
        while i < registry.len()
            invariant
                i <= registry@.len(),
                reg == shapes(registry@),
                in_registry == exists|l: int| 0 <= l < i && reg[l].0 == name@,
            decreases registry.len() - i,
        {
            assert(reg[i as int] == shape(registry@[i as int]));
            if same_chars(&registry[i].struct_name, name) {
                in_registry = true;
            }
            i = i + 1;
        }
        let mut is_known = false;
        let mut m: usize = 0;
        while m < known_non_events.len()
            invariant
                m <= known_non_events@.len(),
                kn == views(known_non_events@),
                is_known == exists|l: int| 0 <= l < m && kn[l] == name@,
            decreases known_non_events.len() - m,
        {
            assert(kn[m as int] == known_non_events@[m as int]@);
            if same_chars(&known_non_events[m], name) {
                is_known = true;
            }
            m = m + 1;
        }
        if first && !in_registry && !is_known {
            out.push(DocMismatch::NotInRegistry { doc: k });
        }
        assert(out@ =~= forward + reverse_mismatches(reg, ds, kn, k + 1));
        k = k + 1;
    }
    out
}


#[verifier::opaque]
/// Registry schema `i` agrees with the documentation: its name is
/// documented, and its fields and those of the last documented shape of
/// that name list each other (by name and normalized type).
pub open spec fn schema_documented(reg: Seq<SchemaShape>, docs: Seq<SchemaShape>, i: int) -> bool {
    match last_named(docs, reg[i].0) {
        None => false,
        Some(d) => {
            &&& forall|j: int| 0 <= j < reg[i].1.len() ==> field_listed(docs[d].1, #[trigger] reg[i].1[j])
            &&& forall|j: int| 0 <= j < docs[d].1.len() ==> field_listed(reg[i].1, #[trigger] docs[d].1[j])
        },
    }
}

/// Documented shape `k` names a registry schema or a known non-event struct.
pub open spec fn shape_accounted(
    reg: Seq<SchemaShape>,
    docs: Seq<SchemaShape>,
    known: Seq<Seq<char>>,
    k: int,
) -> bool {
    registered(reg, docs[k].0) || known.contains(docs[k].0)
}

/// The registry and the documented shapes agree: every registry schema's
/// name is documented, and its fields and those of the last documented
/// shape of that name list each other (by name and normalized type); and
/// every documented name is a registry schema's or a known non-event's.
pub open spec fn docs_agree(reg: Seq<SchemaShape>, docs: Seq<SchemaShape>, known: Seq<Seq<char>>) -> bool {
    &&& forall|i: int| 0 <= i < reg.len() ==> #[trigger] schema_documented(reg, docs, i)
    &&& forall|k: int| 0 <= k < docs.len() ==> #[trigger] shape_accounted(reg, docs, known, k)
}

proof fn lemma_unlisted_empty(
    from: Seq<FieldShape>,
    to: Seq<FieldShape>,
    n: int,
    registry: int,
    doc: int,
    side: bool,
)
    ensures
        unlisted(from, to, n, registry, doc, side).len() == 0 <==> forall|j: int|
            0 <= j < n ==> field_listed(to, #[trigger] from[j]),
    decreases n,
{
    if n > 0 {
        lemma_unlisted_empty(from, to, n - 1, registry, doc, side);
    }
}

proof fn lemma_schema_mismatches_empty(reg: Seq<SchemaShape>, docs: Seq<SchemaShape>, i: int)
    requires
        0 <= i < reg.len(),
    ensures
        schema_mismatches(reg, docs, i).len() == 0 <==> schema_documented(reg, docs, i),
{
    reveal(schema_documented);
    match last_named(docs, reg[i].0) {
        None => {},
        Some(d) => {
            lemma_unlisted_empty(reg[i].1, docs[d].1, reg[i].1.len() as int, i, d, false);
            lemma_unlisted_empty(docs[d].1, reg[i].1, docs[d].1.len() as int, i, d, true);
        },
    }
}

proof fn lemma_forward_empty(reg: Seq<SchemaShape>, docs: Seq<SchemaShape>, n: int)
    requires
        0 <= n <= reg.len(),
    ensures
        forward_mismatches(reg, docs, n).len() == 0 <==> forall|i: int|
            0 <= i < n ==> #[trigger] schema_documented(reg, docs, i),
    decreases n,
{
    if n > 0 {
        let prev = forward_mismatches(reg, docs, n - 1);
        let cur = schema_mismatches(reg, docs, n - 1);
        lemma_forward_empty(reg, docs, n - 1);
        lemma_schema_mismatches_empty(reg, docs, n - 1);
        assert(forward_mismatches(reg, docs, n) == prev + cur);
        assert((prev + cur).len() == prev.len() + cur.len());
        if prev.len() + cur.len() == 0 {
            assert forall|i: int| 0 <= i < n implies #[trigger] schema_documented(reg, docs, i) by {
                if i < n - 1 {
                    assert(0 <= i < n - 1);
                }
            }
        }
        if forall|i: int| 0 <= i < n ==> #[trigger] schema_documented(reg, docs, i) {
            assert(schema_documented(reg, docs, n - 1));
            assert forall|i: int| 0 <= i < n - 1 implies #[trigger] schema_documented(reg, docs, i) by {
                assert(0 <= i < n);
            }
        }
    }
}

proof fn lemma_reverse_empty(
    reg: Seq<SchemaShape>,
    docs: Seq<SchemaShape>,
    known: Seq<Seq<char>>,
    n: int,
)
    requires
        0 <= n <= docs.len(),
    ensures
        reverse_mismatches(reg, docs, known, n).len() == 0 <==> forall|k: int|
            0 <= k < n ==> !#[trigger] unregistered_at(reg, docs, known, k),
    decreases n,
{
    if n > 0 {
        lemma_reverse_empty(reg, docs, known, n - 1);
    }
}

/// The first documented shape with the name of shape `k`.
proof fn lemma_first_of_name(docs: Seq<SchemaShape>, k: int) -> (j: int)
    requires
        0 <= k < docs.len(),
    ensures
        0 <= j <= k,
        docs[j].0 == docs[k].0,
        forall|l: int| 0 <= l < j ==> docs[l].0 != docs[k].0,
    decreases k,
{
    if exists|l: int| 0 <= l < k && docs[l].0 == docs[k].0 {
        let l = choose|l: int| 0 <= l < k && docs[l].0 == docs[k].0;
        lemma_first_of_name(docs, l)
    } else {
        k
    }
}

/// No first-of-its-name shape is unaccounted for exactly when no shape is.
proof fn lemma_accounted_iff(reg: Seq<SchemaShape>, docs: Seq<SchemaShape>, known: Seq<Seq<char>>)
    ensures
        (forall|k: int| 0 <= k < docs.len() ==> !#[trigger] unregistered_at(reg, docs, known, k))
            <==> (forall|k: int|
            0 <= k < docs.len() ==> #[trigger] shape_accounted(reg, docs, known, k)),
{
    if forall|k: int| 0 <= k < docs.len() ==> !#[trigger] unregistered_at(reg, docs, known, k) {
        assert forall|k: int| 0 <= k < docs.len() implies #[trigger] shape_accounted(
            reg,
            docs,
            known,
            k,
        ) by {
            let j = lemma_first_of_name(docs, k);
            assert(!unregistered_at(reg, docs, known, j));
        }
    }
    if forall|k: int| 0 <= k < docs.len() ==> #[trigger] shape_accounted(reg, docs, known, k) {
        assert forall|k: int| 0 <= k < docs.len() implies !#[trigger] unregistered_at(
            reg,
            docs,
            known,
            k,
        ) by {
            assert(shape_accounted(reg, docs, known, k));
        }
    }
}

/// The check finds no mismatch exactly when the registry and the
/// documented shapes agree.
pub proof fn lemma_no_mismatches_iff_agree(
    reg: Seq<SchemaShape>,
    docs: Seq<SchemaShape>,
    known: Seq<Seq<char>>,
)
    ensures
        doc_mismatches_spec(reg, docs, known).len() == 0 <==> docs_agree(reg, docs, known),
{
    lemma_forward_empty(reg, docs, reg.len() as int);
    lemma_reverse_empty(reg, docs, known, docs.len() as int);
    lemma_accounted_iff(reg, docs, known);
}

proof fn lemma_concat_contains(a: Seq<DocMismatch>, b: Seq<DocMismatch>, v: DocMismatch)
    ensures
        (a + b).contains(v) <==> a.contains(v) || b.contains(v),
{
    if (a + b).contains(v) {
        let j = choose|j: int| 0 <= j < (a + b).len() && (a + b)[j] == v;
        if j < a.len() {
            assert(a[j] == v);
        } else {
            assert(b[j - a.len()] == v);
        }
    }
    if a.contains(v) {
        let j = choose|j: int| 0 <= j < a.len() && a[j] == v;
        assert((a + b)[j] == v);
    }
    if b.contains(v) {
        let j = choose|j: int| 0 <= j < b.len() && b[j] == v;
        assert((a + b)[a.len() + j] == v);
    }
}

/// What a field mismatch between field lists `from` and `to`, at registry
/// schema `r` and documented shape `d`, says: the field lies among the first
/// `n` of `from` and `to` does not list it.
pub open spec fn unlisted_holds(
    from: Seq<FieldShape>,
    to: Seq<FieldShape>,
    n: int,
    r: int,
    d: int,
    documented_side: bool,
    v: DocMismatch,
) -> bool {
    match v {
        DocMismatch::FieldNotInRegistry { registry, doc, field } => documented_side && registry as int
            == r && doc as int == d && field < n && !field_listed(to, from[field as int]),
        DocMismatch::FieldNotDocumented { registry, doc, field } => !documented_side && registry as int
            == r && doc as int == d && field < n && !field_listed(to, from[field as int]),
        _ => false,
    }
}

proof fn lemma_unlisted_members(
    from: Seq<FieldShape>,
    to: Seq<FieldShape>,
    n: int,
    r: int,
    d: int,
    documented_side: bool,
    v: DocMismatch,
)
    requires
        n <= usize::MAX,
        0 <= r <= usize::MAX,
        0 <= d <= usize::MAX,
    ensures
        unlisted(from, to, n, r, d, documented_side).contains(v) <==> unlisted_holds(
            from,
            to,
            n,
            r,
            d,
            documented_side,
            v,
        ),
    decreases n,
{
    if n > 0 {
        lemma_unlisted_members(from, to, n - 1, r, d, documented_side, v);
        let a = unlisted(from, to, n - 1, r, d, documented_side);
        let b: Seq<DocMismatch> = if field_listed(to, from[n - 1]) {
            Seq::empty()
        } else if documented_side {
            seq![
                DocMismatch::FieldNotInRegistry {
                    registry: r as usize,
                    doc: d as usize,
                    field: (n - 1) as usize,
                },
            ]
        } else {
            seq![
                DocMismatch::FieldNotDocumented {
                    registry: r as usize,
                    doc: d as usize,
                    field: (n - 1) as usize,
                },
            ]
        };
        assert(unlisted(from, to, n, r, d, documented_side) == a + b);
        lemma_concat_contains(a, b, v);
        if b.len() > 0 {
            assert(b.contains(v) <==> v == b[0]);
        }
    }
}

proof fn lemma_forward_members(reg: Seq<SchemaShape>, docs: Seq<SchemaShape>, n: int, v: DocMismatch)
    requires
        0 <= n,
    ensures
        forward_mismatches(reg, docs, n).contains(v) <==> exists|i: int|
            0 <= i < n && #[trigger] schema_mismatches(reg, docs, i).contains(v),
    decreases n,
{
    if n > 0 {
        lemma_forward_members(reg, docs, n - 1, v);
        let a = forward_mismatches(reg, docs, n - 1);
        let b = schema_mismatches(reg, docs, n - 1);
        assert(forward_mismatches(reg, docs, n) == a + b);
        lemma_concat_contains(a, b, v);
        if exists|i: int| 0 <= i < n && #[trigger] schema_mismatches(reg, docs, i).contains(v) {
            let i = choose|i: int| 0 <= i < n && #[trigger] schema_mismatches(reg, docs, i).contains(v);
            if i < n - 1 {
                assert(a.contains(v));
            }
        }
    }
}

proof fn lemma_reverse_members(
    reg: Seq<SchemaShape>,
    docs: Seq<SchemaShape>,
    known: Seq<Seq<char>>,
    n: int,
    v: DocMismatch,
)
    requires
        n <= usize::MAX,
    ensures
        reverse_mismatches(reg, docs, known, n).contains(v) <==> match v {
            DocMismatch::NotInRegistry { doc } => doc < n && unregistered_at(reg, docs, known, doc as int),
            _ => false,
        },
    decreases n,
{
    if n > 0 {
        lemma_reverse_members(reg, docs, known, n - 1, v);
        let a = reverse_mismatches(reg, docs, known, n - 1);
        let b: Seq<DocMismatch> = if unregistered_at(reg, docs, known, n - 1) {
            seq![DocMismatch::NotInRegistry { doc: (n - 1) as usize }]
        } else {
            Seq::empty()
        };
        assert(reverse_mismatches(reg, docs, known, n) == a + b);
        lemma_concat_contains(a, b, v);
        if b.len() > 0 {
            assert(b.contains(v) <==> v == b[0]);
        }
    }
}

/// What a reported mismatch says, in terms of the registry and the
/// documented shapes alone.
pub open spec fn mismatch_holds(
    reg: Seq<SchemaShape>,
    docs: Seq<SchemaShape>,
    known: Seq<Seq<char>>,
    v: DocMismatch,
) -> bool {
    match v {
        DocMismatch::NotDocumented { registry: r } => {
            &&& r < reg.len()
            &&& forall|k: int| 0 <= k < docs.len() ==> docs[k].0 != reg[r as int].0
        },
        DocMismatch::FieldNotDocumented { registry: r, doc: d, field: f } => {
            &&& r < reg.len()
            &&& is_last_named(docs, reg[r as int].0, d as int)
            &&& f < reg[r as int].1.len()
            &&& !field_listed(docs[d as int].1, reg[r as int].1[f as int])
        },
        DocMismatch::FieldNotInRegistry { registry: r, doc: d, field: f } => {
            &&& r < reg.len()
            &&& is_last_named(docs, reg[r as int].0, d as int)
            &&& f < docs[d as int].1.len()
            &&& !field_listed(reg[r as int].1, docs[d as int].1[f as int])
        },
        DocMismatch::NotInRegistry { doc: d } => {
            &&& d < docs.len()
            &&& forall|j: int| 0 <= j < d ==> docs[j].0 != docs[d as int].0
            &&& forall|i: int| 0 <= i < reg.len() ==> reg[i].0 != docs[d as int].0
            &&& !known.contains(docs[d as int].0)
        },
    }
}

proof fn lemma_last_named_is(docs: Seq<SchemaShape>, name: Seq<char>, d: int)
    requires
        is_last_named(docs, name, d),
    ensures
        last_named(docs, name) == Some(d),
{
    let k = choose|k: int| is_last_named(docs, name, k);
    assert(is_last_named(docs, name, k));
    if k < d {
        assert(docs[d].0 == name);
    } else if k > d {
        assert(docs[k].0 == name);
    }
}

/// The documentation check reports exactly the disagreements that hold: a
/// mismatch is reported if and only if what it says is true of the registry
/// and the documented shapes.
pub proof fn lemma_doc_mismatches_members(
    reg: Seq<SchemaShape>,
    docs: Seq<SchemaShape>,
    known: Seq<Seq<char>>,
    v: DocMismatch,
)
    requires
        reg.len() <= usize::MAX,
        docs.len() <= usize::MAX,
        forall|i: int| 0 <= i < reg.len() ==> (#[trigger] reg[i]).1.len() <= usize::MAX,
        forall|k: int| 0 <= k < docs.len() ==> (#[trigger] docs[k]).1.len() <= usize::MAX,
    ensures
        doc_mismatches_spec(reg, docs, known).contains(v) <==> mismatch_holds(reg, docs, known, v),
{
    let fwd = forward_mismatches(reg, docs, reg.len() as int);
    let rev = reverse_mismatches(reg, docs, known, docs.len() as int);
    lemma_concat_contains(fwd, rev, v);
    lemma_forward_members(reg, docs, reg.len() as int, v);
    lemma_reverse_members(reg, docs, known, docs.len() as int, v);
    match v {
        DocMismatch::NotInRegistry { doc: d } => {
            if !fwd.contains(v) {
            } else {
                let i = choose|i: int| 0 <= i < reg.len() && #[trigger] schema_mismatches(reg, docs, i).contains(v);
                lemma_schema_members(reg, docs, i, v);
            }
            if d < docs.len() {
                let dd = d as int;
                if unregistered_at(reg, docs, known, dd) {
                    assert forall|i: int| 0 <= i < reg.len() implies reg[i].0 != docs[dd].0 by {
                        if reg[i].0 == docs[dd].0 {
                            assert(registered(reg, docs[dd].0));
                        }
                    }
                }
            }
        },
        _ => {
            if fwd.contains(v) {
                let i = choose|i: int| 0 <= i < reg.len() && #[trigger] schema_mismatches(reg, docs, i).contains(v);
                lemma_schema_members(reg, docs, i, v);
            }
            if mismatch_holds(reg, docs, known, v) {
                let r = match v {
                    DocMismatch::NotDocumented { registry } => registry as int,
                    DocMismatch::FieldNotDocumented { registry, .. } => registry as int,
                    DocMismatch::FieldNotInRegistry { registry, .. } => registry as int,
                    _ => 0,
                };
                lemma_schema_members(reg, docs, r, v);
                assert(schema_mismatches(reg, docs, r).contains(v));
            }
        },
    }
}

proof fn lemma_schema_members(reg: Seq<SchemaShape>, docs: Seq<SchemaShape>, i: int, v: DocMismatch)
    requires
        0 <= i < reg.len(),
        reg.len() <= usize::MAX,
        docs.len() <= usize::MAX,
        forall|i: int| 0 <= i < reg.len() ==> (#[trigger] reg[i]).1.len() <= usize::MAX,
        forall|k: int| 0 <= k < docs.len() ==> (#[trigger] docs[k]).1.len() <= usize::MAX,
    ensures
        schema_mismatches(reg, docs, i).contains(v) <==> (mismatch_holds(reg, docs, Seq::empty(), v)
            && !(v is NotInRegistry) && match v {
            DocMismatch::NotDocumented { registry } => registry as int == i,
            DocMismatch::FieldNotDocumented { registry, .. } => registry as int == i,
            DocMismatch::FieldNotInRegistry { registry, .. } => registry as int == i,
            _ => false,
        }),
{
    assert(reg[i].1.len() <= usize::MAX);
    match last_named(docs, reg[i].0) {
        None => {
            let m = DocMismatch::NotDocumented { registry: i as usize };
            assert(schema_mismatches(reg, docs, i) == seq![m]);
            assert(seq![m].contains(v) <==> v == seq![m][0]);
            match v {
                DocMismatch::NotDocumented { registry } => {
                    if registry as int == i {
                        assert forall|k: int| 0 <= k < docs.len() implies docs[k].0 != reg[i].0 by {
                            if docs[k].0 == reg[i].0 {
                                let l = lemma_last_of_name(docs, k);
                                assert(is_last_named(docs, reg[i].0, l));
                            }
                        }
                    }
                },
                DocMismatch::FieldNotDocumented { doc, .. } => {
                    if is_last_named(docs, reg[i].0, doc as int) {
                        lemma_last_named_is(docs, reg[i].0, doc as int);
                    }
                },
                DocMismatch::FieldNotInRegistry { doc, .. } => {
                    if is_last_named(docs, reg[i].0, doc as int) {
                        lemma_last_named_is(docs, reg[i].0, doc as int);
                    }
                },
                _ => {},
            }
        },
        Some(d) => {
            let k = choose|k: int| is_last_named(docs, reg[i].0, k);
            assert(is_last_named(docs, reg[i].0, k));
            assert(docs[d].1.len() <= usize::MAX);
            let a = unlisted(reg[i].1, docs[d].1, reg[i].1.len() as int, i, d, false);
            let b = unlisted(docs[d].1, reg[i].1, docs[d].1.len() as int, i, d, true);
            assert(schema_mismatches(reg, docs, i) == a + b);
            lemma_concat_contains(a, b, v);
            lemma_unlisted_members(reg[i].1, docs[d].1, reg[i].1.len() as int, i, d, false, v);
            lemma_unlisted_members(docs[d].1, reg[i].1, docs[d].1.len() as int, i, d, true, v);
            match v {
                DocMismatch::FieldNotDocumented { doc, .. } => {
                    if is_last_named(docs, reg[i].0, doc as int) {
                        lemma_last_named_is(docs, reg[i].0, doc as int);
                    }
                },
                DocMismatch::FieldNotInRegistry { doc, .. } => {
                    if is_last_named(docs, reg[i].0, doc as int) {
                        lemma_last_named_is(docs, reg[i].0, doc as int);
                    }
                },
                _ => {},
            }
            if v is NotDocumented {
                assert(docs[d].0 == reg[i].0);
            }
        },
    }
}

/// The last shape named like `docs[k]`.
proof fn lemma_last_of_name(docs: Seq<SchemaShape>, k: int) -> (l: int)
    requires
        0 <= k < docs.len(),
    ensures
        is_last_named(docs, docs[k].0, l),
    decreases docs.len() - k,
{
    if exists|j: int| k < j < docs.len() && docs[j].0 == docs[k].0 {
        let j = choose|j: int| k < j < docs.len() && docs[j].0 == docs[k].0;
        lemma_last_of_name(docs, j)
    } else {
        k
    }
}

} // verus!
