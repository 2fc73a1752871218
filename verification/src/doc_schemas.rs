//! The payload shapes written in the event documentation, and their
//! agreement with the schema registry.
//!
//! Shapes are read from fenced code blocks holding `pub struct Name { .. }`
//! (or the `StreamEvent` enum), and from `data: Name { .. }` blocks
//! separated by blank lines. Positions are counted in characters.

use vstd::prelude::*;

use crate::schema::{normalize_type, normalized, EventField, EventSchema};
use crate::text::{
    chars_of, find, find_from, is_first_occurrence, is_whitespace, is_whitespace_spec, join_lines,
    joined, lines, matches_at, occurs_at, rfind_char, rfind_char_from, same_chars, slice_of,
    split_lines, trim, trim_start, trimmed, views, lemma_trim_ignores_indent, lemma_trim_start_at,
    lemma_find_at, lemma_trim_unchanged, lemma_find_absent, contains,
};

verus! {

/// Whether `c` has the Unicode `Uppercase` property, as `char::is_uppercase` reports.
pub uninterp spec fn char_is_uppercase(c: char) -> bool;

/// Calls `char::is_uppercase`, which reports the Unicode `Uppercase`
/// property: the result is named [`char_is_uppercase`]; the contract adds
/// only that ASCII capitals have the property and ASCII small letters do not.
#[verifier::external_body]
fn is_uppercase(c: char) -> (r: bool)
    ensures
        r == char_is_uppercase(c),
        'A' <= c <= 'Z' ==> r,
        'a' <= c <= 'z' ==> !r,
{
    c.is_uppercase()
}

/// A field as the documentation gives it: its name and its normalized type.
pub type FieldShape = (Seq<char>, Seq<char>);

/// A payload shape as the documentation gives it: its name and its fields.
pub type SchemaShape = (Seq<char>, Seq<FieldShape>);

/// The shape of a schema.
pub open spec fn shape(s: EventSchema) -> SchemaShape {
    (s.struct_name@, field_shapes(s.fields@))
}

/// The shape of a field.
pub open spec fn field_shape(f: EventField) -> FieldShape {
    (f.name@, f.typ@)
}

/// The shapes of a list of fields.
pub open spec fn field_shapes(v: Seq<EventField>) -> Seq<FieldShape> {
    Seq::new(v.len(), |i: int| field_shape(v[i]))
}

/// The shapes of a list of schemas.
pub open spec fn shapes(v: Seq<EventSchema>) -> Seq<SchemaShape> {
    Seq::new(v.len(), |i: int| shape(v[i]))
}

/// `Some(x)` as a one-element sequence, `None` as the empty one.
pub open spec fn opt_seq<T>(o: Option<T>) -> Seq<T> {
    match o {
        Some(x) => seq![x],
        None => Seq::empty(),
    }
}

/// A character that ends a name: whitespace or `{`.
pub open spec fn ends_name(c: char) -> bool {
    is_whitespace_spec(c) || c == '{'
}

/// `i` is the first position in `s` of a character that ends a name.
pub open spec fn is_first_name_end(s: Seq<char>, i: int) -> bool {
    0 <= i < s.len() && ends_name(s[i]) && forall|j: int| 0 <= j < i ==> !ends_name(s[j])
}

/// The first position in `s` of a character that ends a name, if any.
pub open spec fn name_end(s: Seq<char>) -> Option<int> {
    if exists|i: int| is_first_name_end(s, i) {
        Some(choose|i: int| is_first_name_end(s, i))
    } else {
        None
    }
}

/// `t` up to its first `//`.
pub open spec fn before_comment(t: Seq<char>) -> Seq<char> {
    match find(t, "//"@) {
        Some(k) => t.take(k),
        None => t,
    }
}

/// `l` without one trailing comma.
pub open spec fn strip_comma(l: Seq<char>) -> Seq<char> {
    if l.len() > 0 && l.last() == ',' {
        l.drop_last()
    } else {
        l
    }
}

/// The type written after a field's colon: trimmed, cut at a `//`
/// comment, trimmed again, then normalized.
pub open spec fn written_type(rest: Seq<char>) -> Seq<char> {
    normalized(trim(before_comment(trim(rest))))
}

/// How a block writes its fields.
#[derive(Clone, Copy, Debug, PartialEq, Eq, Structural)]
pub enum LineForm {
    /// `pub name: type,` inside `pub struct`.
    StructField,
    /// `Variant(type),` inside `pub enum`.
    EnumVariant,
    /// `name: type,` inside `data: Name { .. }`.
    InlineField,
}

/// The field that one line of a block declares, if any.
pub open spec fn field_of_line(form: LineForm, line: Seq<char>) -> Option<FieldShape> {
    let t = trim(line);
    if t.len() == 0 || (form != LineForm::InlineField && occurs_at(t, "}"@, 0)) {
        None
    } else {
        let fl = trim(strip_comma(t));
        match form {
            LineForm::StructField => if occurs_at(fl, "pub "@, 0) {
                let ap = fl.skip("pub "@.len() as int);
                match find(ap, seq![':']) {
                    Some(c) => Some((trim(ap.take(c)), written_type(ap.skip(c + 1)))),
                    None => None,
                }
            } else {
                None
            },
            LineForm::EnumVariant => match find(fl, seq!['(']) {
                Some(p) => {
                    let inner = fl.skip(p + 1);
                    match rfind_char(inner, ')') {
                        Some(pc) => Some((trim(fl.take(p)), normalized(trim(inner.take(pc))))),
                        None => None,
                    }
                },
                None => None,
            },
            LineForm::InlineField => match find(fl, seq![':']) {
                Some(c) => {
                    let name = trim(fl.take(c));
                    if name.len() == 0 || occurs_at(name, "/"@, 0) {
                        None
                    } else {
                        Some((name, written_type(fl.skip(c + 1))))
                    }
                },
                None => None,
            },
        }
    }
}

/// The fields that the lines `ls` declare, in order.
pub open spec fn fields_of(form: LineForm, ls: Seq<Seq<char>>) -> Seq<FieldShape>
    decreases ls.len(),
{
    if ls.len() == 0 {
        Seq::empty()
    } else {
        fields_of(form, ls.drop_last()) + opt_seq(field_of_line(form, ls.last()))
    }
}

/// A name or a type as written in a field line: not empty, with no
/// whitespace at either end.
pub open spec fn is_written_token(s: Seq<char>) -> bool {
    s.len() > 0 && !is_whitespace_spec(s[0]) && !is_whitespace_spec(s.last())
}

/// The field read from `name: typ` (after the line's trim and the removal
/// of one trailing comma): the name, and the type in comparable form.
proof fn lemma_name_colon_type(name: Seq<char>, typ: Seq<char>)
    requires
        is_written_token(name),
        is_written_token(typ),
        forall|j: int| 0 <= j < name.len() ==> #[trigger] name[j] != ':',
        !contains(typ, "//"@),
    ensures
        ({
            let fl = name + ": "@ + typ;
            &&& find(fl, seq![':']) == Some(name.len() as int)
            &&& trim(fl.take(name.len() as int)) == name
            &&& written_type(fl.skip(name.len() as int + 1)) == normalized(typ)
        }),
{
    reveal_strlit(": ");
    let fl = name + ": "@ + typ;
    assert(fl[name.len() as int] == ':');
    assert(fl.subrange(name.len() as int, name.len() as int + 1) =~= seq![':']);
    assert forall|j: int| 0 <= j < name.len() implies !occurs_at(fl, seq![':'], j) by {
        assert(fl[j] == name[j]);
        if occurs_at(fl, seq![':'], j) {
            assert(fl.subrange(j, j + 1)[0] == fl[j]);
        }
    }
    lemma_find_at(fl, seq![':'], name.len() as int);
    assert(fl.take(name.len() as int) =~= name);
    lemma_trim_unchanged(name);
    let rest = fl.skip(name.len() as int + 1);
    assert(rest =~= seq![' '] + typ);
    assert(is_whitespace_spec(' '));
    lemma_trim_ignores_indent(seq![' '], typ, typ.len() as int);
    lemma_trim_unchanged(typ);
    lemma_find_absent(typ, "//"@);
}

/// The trimmed form of an indented line `text` followed by a comma.
proof fn lemma_trimmed_field_line(indent: Seq<char>, text: Seq<char>)
    requires
        forall|j: int| 0 <= j < indent.len() ==> is_whitespace_spec(#[trigger] indent[j]),
        is_written_token(text),
    ensures
        trim(indent + (text + ","@)) == text + ","@,
        trim(strip_comma(trim(indent + (text + ","@)))) == text,
{
    reveal_strlit(",");
    let tc = text + ","@;
    assert(tc[0] == text[0]);
    assert(tc.last() == ',');
    lemma_trim_ignores_indent(indent, tc, tc.len() as int);
    lemma_trim_unchanged(tc);
    assert(tc.drop_last() =~= text);
    lemma_trim_unchanged(text);
}

/// A line `name: type,` of a `data:` block, indented or not, declares the
/// field `name` with the type in comparable form, whenever the name holds
/// no colon and does not start with `/`, and the type holds no comment.
pub proof fn lemma_inline_field_line(indent: Seq<char>, name: Seq<char>, typ: Seq<char>)
    requires
        forall|j: int| 0 <= j < indent.len() ==> is_whitespace_spec(#[trigger] indent[j]),
        is_written_token(name),
        is_written_token(typ),
        forall|j: int| 0 <= j < name.len() ==> #[trigger] name[j] != ':',
        name[0] != '/',
        !contains(typ, "//"@),
    ensures
        field_of_line(LineForm::InlineField, indent + (name + ": "@ + typ + ","@))
            == Some((name, normalized(typ))),
{
    reveal_strlit(": ");
    reveal_strlit("/");
    let text = name + ": "@ + typ;
    assert(text[0] == name[0]);
    assert(text.last() == typ.last());
    lemma_trimmed_field_line(indent, text);
    lemma_name_colon_type(name, typ);
    if occurs_at(name, "/"@, 0) {
        assert(name.subrange(0, 1)[0] == name[0]);
    }
}

/// A line `pub name: type,` of a fenced `pub struct` block, indented or
/// not, declares the field `name` with the type in comparable form,
/// whenever the name holds no colon and the type holds no comment.
pub proof fn lemma_struct_field_line(indent: Seq<char>, name: Seq<char>, typ: Seq<char>)
    requires
        forall|j: int| 0 <= j < indent.len() ==> is_whitespace_spec(#[trigger] indent[j]),
        is_written_token(name),
        is_written_token(typ),
        forall|j: int| 0 <= j < name.len() ==> #[trigger] name[j] != ':',
        !contains(typ, "//"@),
    ensures
        field_of_line(LineForm::StructField, indent + ("pub "@ + name + ": "@ + typ + ","@))
            == Some((name, normalized(typ))),
{
    reveal_strlit(": ");
    reveal_strlit("pub ");
    reveal_strlit("}");
    let text = "pub "@ + name + ": "@ + typ;
    assert(text[0] == 'p');
    assert(text.last() == typ.last());
    lemma_trimmed_field_line(indent, text);
    let tc = text + ","@;
    if occurs_at(tc, "}"@, 0) {
        assert(tc.subrange(0, 1)[0] == tc[0]);
    }
    assert(text.subrange(0, 4) =~= "pub "@);
    assert(text.skip(4) =~= name + ": "@ + typ);
    lemma_name_colon_type(name, typ);
}

/// What a fenced code block yields.
pub enum BlockShape {
    /// Nothing of the form looked for.
    Skipped,
    /// A payload shape.
    Parsed(SchemaShape),
    /// The last `}` comes before the first `{`: the body cannot be taken.
    Unbalanced,
}

/// What the fenced block `text` yields for `pub struct` (`is_enum` false)
/// or for the `StreamEvent` enum (`is_enum` true).
pub open spec fn code_block(text: Seq<char>, is_enum: bool) -> BlockShape {
    let marker = if is_enum { "pub enum "@ } else { "pub struct "@ };
    match find(text, marker) {
        None => BlockShape::Skipped,
        Some(si) => {
            let after = text.skip(si + marker.len());
            match name_end(after) {
                None => BlockShape::Skipped,
                Some(ne) => {
                    let name = trim(after.take(ne));
                    if is_enum && name != "StreamEvent"@ {
                        BlockShape::Skipped
                    } else {
                        let from = text.skip(si);
                        match (find(from, seq!['{']), rfind_char(from, '}')) {
                            (Some(bo), Some(bc)) => if bc < bo + 1 {
                                BlockShape::Unbalanced
                            } else {
                                BlockShape::Parsed(
                                    (
                                        name,
                                        fields_of(
                                            if is_enum {
                                                LineForm::EnumVariant
                                            } else {
                                                LineForm::StructField
                                            },
                                            lines(from.subrange(bo + 1, bc)),
                                        ),
                                    ),
                                )
                            },
                            _ => BlockShape::Skipped,
                        }
                    }
                },
            }
        },
    }
}

/// The position in `s`, from `i` on, at which the brace depth `depth` drops to zero.
pub open spec fn closing(s: Seq<char>, i: int, depth: int) -> Option<int>
    decreases s.len() - i,
{
    if i < 0 || i >= s.len() {
        None
    } else if s[i] == '{' {
        closing(s, i + 1, depth + 1)
    } else if s[i] == '}' {
        if depth - 1 == 0 {
            Some(i)
        } else {
            closing(s, i + 1, depth - 1)
        }
    } else {
        closing(s, i + 1, depth)
    }
}

/// The shape that a `data: Name { .. }` block yields: the name between
/// `data:` and the first `{`, and the fields of the body from just after
/// that `{` to the `}` that closes it.
pub open spec fn inline_block(text: Seq<char>) -> Option<SchemaShape> {
    match find(text, "data:"@) {
        None => None,
        Some(di) => {
            let rest = text.skip(di + "data:"@.len());
            let after = trim_start(rest);
            match find(after, seq!['{']) {
                None => None,
                Some(bo) => {
                    let name = trim(after.take(bo));
                    if name.len() == 0 || !char_is_uppercase(name[0]) {
                        None
                    } else {
                        let start = di + "data:"@.len() + (rest.len() - after.len()) + bo + 1;
                        match closing(text.skip(start), 0, 1) {
                            None => None,
                            Some(e) => {
                                let fs = fields_of(
                                    LineForm::InlineField,
                                    lines(text.subrange(start, start + e)),
                                );
                                if fs.len() == 0 {
                                    None
                                } else {
                                    Some((name, fs))
                                }
                            },
                        }
                    }
                },
            }
        },
    }
}


/// The first position in `s` of a character that ends a name.
fn name_end_of(s: &[char]) -> (r: Option<usize>)
    ensures
        match r {
            Some(i) => name_end(s@) == Some(i as int),
            None => name_end(s@) is None,
        },
{
    let mut i: usize = 0;
    while i < s.len()
        invariant
            i <= s@.len(),
            forall|j: int| 0 <= j < i ==> !ends_name(s@[j]),
        decreases s.len() - i,
    {
        if is_whitespace(s[i]) || s[i] == '{' {
            proof {
                assert(is_first_name_end(s@, i as int));
                let k = choose|k: int| is_first_name_end(s@, k);
                assert(is_first_name_end(s@, k));
            }
            return Some(i);
        }
        i = i + 1;
    }
    None
}

/// How much leading whitespace `s` has.
fn leading_whitespace(s: &[char]) -> (r: usize)
    ensures
        r <= s@.len(),
        trim_start(s@) == s@.skip(r as int),
{
    let mut a: usize = 0;
    while a < s.len() && is_whitespace(s[a])
        invariant
            a <= s@.len(),
            forall|j: int| 0 <= j < a ==> is_whitespace_spec(#[trigger] s@[j]),
        decreases s.len() - a,
    {
        a = a + 1;
    }
    proof {
        crate::text::lemma_trim_start_at(s@, a as int);
    }
    a
}

/// `t` up to its first `//`.
fn before_comment_of(t: &[char]) -> (r: Vec<char>)
    ensures
        r@ == before_comment(t@),
{
    let slashes = chars_of("//");
    match find_from(t, &slashes, 0) {
        Some(k) => {
            assert(t@.skip(0) =~= t@);
            slice_of(t, 0, k)
        },
        None => {
            assert(t@.skip(0) =~= t@);
            slice_of(t, 0, t.len())
        },
    }
}

/// `l` without one trailing comma.
fn strip_comma_of(l: &[char]) -> (r: Vec<char>)
    ensures
        r@ == strip_comma(l@),
{
    if l.len() > 0 && l[l.len() - 1] == ',' {
        slice_of(l, 0, l.len() - 1)
    } else {
        slice_of(l, 0, l.len())
    }
}

/// The type written after a field's colon, from position `from` of `fl`.
fn written_type_of(fl: &[char], from: usize) -> (r: Vec<char>)
    requires
        from <= fl@.len(),
    ensures
        r@ == written_type(fl@.skip(from as int)),
{
    let rest = slice_of(fl, from, fl.len());
    assert(rest@ =~= fl@.skip(from as int));
    let t = trimmed(&rest);
    let t = before_comment_of(&t);
    let t = trimmed(&t);
    normalize_type(&t)
}

/// The field that one line of a block declares, if any.
fn field_of_line_of(form: LineForm, line: &[char]) -> (r: Option<EventField>)
    ensures
        match r {
            Some(f) => field_of_line(form, line@) == Some(field_shape(f)),
            None => field_of_line(form, line@) is None,
        },
{
    let t = trimmed(line);
    if t.len() == 0 || (form != LineForm::InlineField && matches_at(&t, &chars_of("}"), 0)) {
        return None;
    }
    let fl = trimmed(&strip_comma_of(&t));
    let colon = vec![':'];
    let open_paren = vec!['('];
    assert(colon@ =~= seq![':']);
    assert(open_paren@ =~= seq!['(']);
    assert(t@ == trim(line@));
    assert(fl@ == trim(strip_comma(t@)));
    assert(fl@.skip(0) =~= fl@);
    match form {
        LineForm::StructField => {
            let pub_kw = chars_of("pub ");
            if !matches_at(&fl, &pub_kw, 0) {
                return None;
            }
            let ap = slice_of(&fl, pub_kw.len(), fl.len());
            assert(ap@ =~= fl@.skip(pub_kw@.len() as int));
            match find_from(&ap, &colon, 0) {
                Some(c) => {
                    assert(ap@.skip(0) =~= ap@);
                    let name = trimmed(&slice_of(&ap, 0, c));
                    let n = ap.len();
                    assert(colon@.len() == 1);
                    assert(c < n);
                    let typ = written_type_of(&ap, c + 1);
                    Some(EventField { name, typ })
                },
                None => {
                    assert(ap@.skip(0) =~= ap@);
                    None
                },
            }
        },
        LineForm::EnumVariant => {
            assert(fl@.skip(0) =~= fl@);
            match find_from(&fl, &open_paren, 0) {
                Some(p) => {
                    assert(is_first_occurrence(fl@, seq!['('], p as int));
                    assert(fl@[p as int] == '(') by {
                        assert(fl@.subrange(p as int, p + 1)[0] == fl@[p as int]);
                    }
                    let n = fl.len();
                    assert(p < n);
                    let inner = slice_of(&fl, p + 1, n);
                    assert(inner@ =~= fl@.skip(p + 1));
                    assert(inner@.skip(0) =~= inner@);
                    match rfind_char_from(&inner, ')', 0) {
                        Some(pc) => {
                            let name = trimmed(&slice_of(&fl, 0, p));
                            let typ = normalize_type(&trimmed(&slice_of(&inner, 0, pc)));
                            Some(EventField { name, typ })
                        },
                        None => None,
                    }
                },
                None => None,
            }
        },
        LineForm::InlineField => {
            assert(fl@.skip(0) =~= fl@);
            match find_from(&fl, &colon, 0) {
                Some(c) => {
                    let name = trimmed(&slice_of(&fl, 0, c));
                    assert(t@ == trim(line@));
                    assert(fl@ == trim(strip_comma(t@)));
                    assert(find(fl@, seq![':']) == Some(c as int));
                    assert(name@ == trim(fl@.take(c as int)));
                    if name.len() == 0 || matches_at(&name, &chars_of("/"), 0) {
                        assert(t@.len() != 0);
                        return None;
                    }
                    let n = fl.len();
                    assert(colon@.len() == 1);
                    assert(c < n);
                    let typ = written_type_of(&fl, c + 1);
                    Some(EventField { name, typ })
                },
                None => None,
            }
        },
    }
}

/// The fields that the lines `ls` declare, in order.
fn fields_of_lines(form: LineForm, ls: &Vec<Vec<char>>) -> (r: Vec<EventField>)
    ensures
        field_shapes(r@) == fields_of(form, views(ls@)),
{
    let mut out: Vec<EventField> = Vec::new();
    let mut i: usize = 0;
    while i < ls.len()
        invariant
            i <= ls@.len(),
            field_shapes(out@) =~= fields_of(form, views(ls@).take(i as int)),
        decreases ls.len() - i,
    {
        match field_of_line_of(form, &ls[i]) {
            Some(f) => {
                out.push(f);
            },
            None => {},
        }
        assert(views(ls@).take(i + 1).drop_last() =~= views(ls@).take(i as int));
        assert(views(ls@).take(i + 1).last() == ls@[i as int]@);
        assert(field_shapes(out@) =~= fields_of(form, views(ls@).take(i + 1)));
        i = i + 1;
    }
    assert(views(ls@).take(ls@.len() as int) =~= views(ls@));
    out
}


/// What a fenced code block yields.
enum BlockParse {
    Skipped,
    Parsed(EventSchema),
    Unbalanced,
}

spec fn block_view(b: BlockParse) -> BlockShape {
    match b {
        BlockParse::Skipped => BlockShape::Skipped,
        BlockParse::Parsed(s) => BlockShape::Parsed(shape(s)),
        BlockParse::Unbalanced => BlockShape::Unbalanced,
    }
}

/// What the fenced block `text` yields for `pub struct` or for the `StreamEvent` enum.
fn code_block_of(text: &[char], is_enum: bool) -> (r: BlockParse)
    ensures
        block_view(r) == code_block(text@, is_enum),
{
    let marker = if is_enum { chars_of("pub enum ") } else { chars_of("pub struct ") };
    assert(text@.skip(0) =~= text@);
    let si = match find_from(text, &marker, 0) {
        Some(si) => si,
        None => return BlockParse::Skipped,
    };
    let n = text.len();
    assert(si + marker.len() <= n);
    let after = slice_of(text, si + marker.len(), n);
    assert(after@ =~= text@.skip(si + marker@.len()));
    let ne = match name_end_of(&after) {
        Some(ne) => ne,
        None => return BlockParse::Skipped,
    };
    proof {
        let k = choose|k: int| is_first_name_end(after@, k);
        assert(is_first_name_end(after@, k));
    }
    let name = trimmed(&slice_of(&after, 0, ne));
    if is_enum && !same_chars(&name, &chars_of("StreamEvent")) {
        return BlockParse::Skipped;
    }
    let open_brace = vec!['{'];
    assert(open_brace@ =~= seq!['{']);
    let bo = find_from(text, &open_brace, si);
    let bc = rfind_char_from(text, '}', si);
    match (bo, bc) {
        (Some(bo), Some(bc)) => {
            if bc < bo + 1 {
                BlockParse::Unbalanced
            } else {
                let form = if is_enum { LineForm::EnumVariant } else { LineForm::StructField };
                let body = slice_of(text, bo + 1, bc);
                assert(body@ =~= text@.skip(si as int).subrange(bo - si + 1, bc - si));
                let fields = fields_of_lines(form, &split_lines(&body));
                BlockParse::Parsed(EventSchema { struct_name: name, fields })
            }
        },
        _ => BlockParse::Skipped,
    }
}

/// The position in `s`, from `start` on, at which a brace depth of one drops to zero.
fn closing_of(s: &[char], start: usize) -> (r: Option<usize>)
    requires
        1 <= start <= s@.len(),
    ensures
        match r {
            Some(e) => start + e < s@.len() && closing(s@.skip(start as int), 0, 1) == Some(
                e as int,
            ),
            None => closing(s@.skip(start as int), 0, 1) is None,
        },
{
    let ghost t = s@.skip(start as int);
    let n = s.len();
    let mut depth: usize = 1;
    let mut i: usize = start;
    while i < n
        invariant
            1 <= start <= i <= n,
            n == s@.len(),
            t == s@.skip(start as int),
            depth >= 1,
            depth <= 1 + (i - start),
            closing(t, 0, 1) == closing(t, i - start, depth as int),
        decreases s.len() - i,
    {
        assert(t[i - start] == s@[i as int]);
        if s[i] == '{' {
            depth = depth + 1;
        } else if s[i] == '}' {
            if depth == 1 {
                return Some(i - start);
            }
            depth = depth - 1;
        }
        i = i + 1;
    }
    None
}

/// The shape that a `data: Name { .. }` block yields.
fn inline_block_of(text: &[char]) -> (r: Option<EventSchema>)
    ensures
        match r {
            Some(sc) => inline_block(text@) == Some(shape(sc)),
            None => inline_block(text@) is None,
        },
{
    let marker = chars_of("data:");
    assert(text@.skip(0) =~= text@);
    let di = match find_from(text, &marker, 0) {
        Some(di) => di,
        None => return None,
    };
    let n = text.len();
    assert(di + marker.len() <= n);
    let rest = slice_of(text, di + marker.len(), n);
    assert(rest@ =~= text@.skip(di + marker@.len()));
    let shift = leading_whitespace(&rest);
    let after = slice_of(&rest, shift, rest.len());
    assert(after@ =~= rest@.skip(shift as int));
    assert(after@.skip(0) =~= after@);
    let open_brace = vec!['{'];
    assert(open_brace@ =~= seq!['{']);
    let bo = match find_from(&after, &open_brace, 0) {
        Some(bo) => bo,
        None => return None,
    };
    let name = trimmed(&slice_of(&after, 0, bo));
    if name.len() == 0 || !is_uppercase(name[0]) {
        return None;
    }
    proof {
        let k = choose|k: int| is_first_occurrence(after@, seq!['{'], k);
        assert(is_first_occurrence(after@, seq!['{'], k));
    }
    assert(bo < after.len());
    let start = di + marker.len() + shift + bo + 1;
    match closing_of(text, start) {
        None => None,
        Some(e) => {
            let body = slice_of(text, start, start + e);
            assert(body@ =~= text@.subrange(start as int, start + e));
            let fields = fields_of_lines(LineForm::InlineField, &split_lines(&body));
            if fields.len() == 0 {
                assert(field_shapes(fields@).len() == 0);
                None
            } else {
                Some(EventSchema { struct_name: name, fields })
            }
        },
    }
}


/// The state after reading lines for fenced blocks: the shapes found, whether
/// a fence is open, the lines of the open fence, and whether every block
/// closed so far had balanced braces.
pub type FenceState = (Seq<SchemaShape>, bool, Seq<Seq<char>>, bool);

/// The shape that a block yields, as a sequence of at most one.
pub open spec fn block_shapes(b: BlockShape) -> Seq<SchemaShape> {
    match b {
        BlockShape::Parsed(x) => seq![x],
        _ => Seq::empty(),
    }
}

/// Reading one more line for fenced blocks: a line starting with three
/// backticks opens or closes a fence; closing one reads its lines as a
/// struct block, then as a `StreamEvent` enum block.
pub open spec fn fence_step(st: FenceState, line: Seq<char>) -> FenceState {
    if occurs_at(trim(line), "```"@, 0) {
        if st.1 {
            let text = join_lines(st.2);
            let a = code_block(text, false);
            let b = code_block(text, true);
            (
                st.0 + block_shapes(a) + block_shapes(b),
                false,
                Seq::empty(),
                st.3 && !(a is Unbalanced) && !(b is Unbalanced),
            )
        } else {
            (st.0, true, Seq::empty(), st.3)
        }
    } else if st.1 {
        (st.0, true, st.2.push(line), st.3)
    } else {
        st
    }
}

/// A closing brace is found at a position of the text, from `i` on.
proof fn lemma_closing_in_range(s: Seq<char>, i: int, depth: int)
    ensures
        closing(s, i, depth) matches Some(e) ==> i <= e < s.len(),
    decreases s.len() - i,
{
    if 0 <= i < s.len() {
        lemma_closing_in_range(s, i + 1, depth + 1);
        lemma_closing_in_range(s, i + 1, depth - 1);
        lemma_closing_in_range(s, i + 1, depth);
    }
}

/// A `data:` block reads the same whatever whitespace stands between
/// `data:` and the struct name.
pub proof fn lemma_data_block_spacing(indent: Seq<char>, rest: Seq<char>)
    requires
        forall|j: int| 0 <= j < indent.len() ==> is_whitespace_spec(#[trigger] indent[j]),
        rest.len() > 0,
        !is_whitespace_spec(rest[0]),
    ensures
        inline_block("data:"@ + indent + rest) == inline_block("data:"@ + rest),
{
    reveal_strlit("data:");
    let d = "data:"@;
    let t1 = d + indent + rest;
    let t2 = d + rest;
    assert(t1.subrange(0, 5) =~= d);
    assert(t2.subrange(0, 5) =~= d);
    lemma_find_at(t1, d, 0);
    lemma_find_at(t2, d, 0);
    let r1 = t1.skip(5);
    let r2 = t2.skip(5);
    assert(r1 =~= indent + rest);
    assert(r2 =~= rest);
    assert forall|j: int| 0 <= j < indent.len() implies is_whitespace_spec(#[trigger] r1[j]) by {
        assert(r1[j] == indent[j]);
    }
    assert(r1[indent.len() as int] == rest[0]);
    lemma_trim_start_at(r1, indent.len() as int);
    lemma_trim_start_at(r2, 0);
    assert(r1.skip(indent.len() as int) =~= rest);
    assert(r2.skip(0) =~= rest);
    let after = rest;
    match find(after, seq!['{']) {
        None => {},
        Some(bo) => {
            let k = choose|k: int| is_first_occurrence(after, seq!['{'], k);
            assert(is_first_occurrence(after, seq!['{'], k));
            let s1 = 5 + indent.len() + bo + 1;
            let s2 = 5 + bo + 1;
            let u = rest.skip(bo + 1);
            assert(t1.skip(s1) =~= u);
            assert(t2.skip(s2) =~= u);
            lemma_closing_in_range(u, 0, 1);
            match closing(u, 0, 1) {
                None => {},
                Some(e) => {
                    assert(t1.subrange(s1, s1 + e) =~= u.take(e));
                    assert(t2.subrange(s2, s2 + e) =~= u.take(e));
                },
            }
        },
    }
}

/// A line that starts with three backticks opens a fence where none is open
/// and closes the open one otherwise; written with any indentation before
/// it, it does exactly the same.
pub proof fn lemma_indented_fence_lines(st: FenceState, indent: Seq<char>, line: Seq<char>)
    requires
        forall|j: int| 0 <= j < indent.len() ==> is_whitespace_spec(#[trigger] indent[j]),
        line.len() >= 3,
        line.take(3) == "```"@,
    ensures
        fence_step(st, indent + line) == fence_step(st, line),
        fence_step(st, line).1 == !st.1,
{
    reveal_strlit("```");
    assert(line[0] == line.take(3)[0]);
    assert(line[2] == line.take(3)[2]);
    lemma_trim_ignores_indent(indent, line, 3);
    lemma_trim_ignores_indent(Seq::empty(), line, 3);
    assert(Seq::<char>::empty() + line =~= line);
    assert(trim(line).subrange(0, 3) =~= trim(line).take(3));
}

/// A line that, after its leading whitespace, does not start with three
/// backticks neither opens nor closes a fence.
pub proof fn lemma_other_lines_keep_fence(st: FenceState, line: Seq<char>)
    requires
        !(trim(line).len() >= 3 && trim(line).take(3) == "```"@),
    ensures
        fence_step(st, line).1 == st.1,
{
    reveal_strlit("```");
    if occurs_at(trim(line), "```"@, 0) {
        assert(trim(line).subrange(0, 3) =~= trim(line).take(3));
    }
}

/// The state after reading the lines `ls` for fenced blocks.
pub open spec fn fence_pass(ls: Seq<Seq<char>>) -> FenceState
    decreases ls.len(),
{
    if ls.len() == 0 {
        (Seq::empty(), false, Seq::empty(), true)
    } else {
        fence_step(fence_pass(ls.drop_last()), ls.last())
    }
}

/// `res` with the shape `o` added, unless a shape of that name is there already.
pub open spec fn add_shape(res: Seq<SchemaShape>, o: Option<SchemaShape>) -> Seq<SchemaShape> {
    match o {
        Some(x) => if exists|j: int| 0 <= j < res.len() && res[j].0 == x.0 {
            res
        } else {
            res.push(x)
        },
        None => res,
    }
}

/// The state after reading lines for blank-line separated blocks: the
/// shapes found and the lines of the current block.
pub type BlockState = (Seq<SchemaShape>, Seq<Seq<char>>);

/// Reading one more line for blank-line separated blocks: a blank line ends
/// the current block, which is read as a `data:` block.
pub open spec fn blank_step(st: BlockState, line: Seq<char>) -> BlockState {
    let t = trim(line);
    if t.len() == 0 && st.1.len() > 0 {
        (add_shape(st.0, inline_block(join_lines(st.1))), Seq::empty())
    } else if t.len() > 0 {
        (st.0, st.1.push(line))
    } else {
        st
    }
}

/// The state after reading the lines `ls` for blank-line separated blocks.
pub open spec fn blank_pass(ls: Seq<Seq<char>>, found: Seq<SchemaShape>) -> BlockState
    decreases ls.len(),
{
    if ls.len() == 0 {
        (found, Seq::empty())
    } else {
        blank_step(blank_pass(ls.drop_last(), found), ls.last())
    }
}

/// The payload shapes written in the documentation `doc`: those of the
/// fenced blocks in order, then those of the `data:` blocks whose names are
/// not found yet.
pub open spec fn doc_shapes(doc: Seq<char>) -> Seq<SchemaShape> {
    let ls = lines(doc);
    let p = blank_pass(ls, fence_pass(ls).0);
    if p.1.len() > 0 {
        add_shape(p.0, inline_block(join_lines(p.1)))
    } else {
        p.0
    }
}

/// Every fenced block of `doc` that names a struct, or the `StreamEvent`
/// enum, has its last `}` after its first `{`.
pub open spec fn doc_blocks_balanced(doc: Seq<char>) -> bool {
    fence_pass(lines(doc)).3
}

/// Whether a shape named `name` is among `res`.
fn has_shape_named(res: &Vec<EventSchema>, name: &[char]) -> (r: bool)
    ensures
        r == exists|j: int| 0 <= j < res@.len() && shapes(res@)[j].0 == name@,
{
    let mut j: usize = 0;
    while j < res.len()
        invariant
            j <= res@.len(),
            forall|k: int| 0 <= k < j ==> shapes(res@)[k].0 != name@,
        decreases res.len() - j,
    {
        if same_chars(&res[j].struct_name, name) {
            assert(shapes(res@)[j as int].0 == name@);
            return true;
        }
        j = j + 1;
    }
    false
}

/// Add the shape `o` to `res`, unless a shape of that name is there already.
fn add_shape_to(res: &mut Vec<EventSchema>, o: Option<EventSchema>)
    ensures
        shapes(final(res)@) == add_shape(
            shapes(old(res)@),
            match o {
                Some(x) => Some(shape(x)),
                None => None,
            },
        ),
{
    match o {
        Some(x) => {
            if !has_shape_named(res, &x.struct_name) {
                let ghost before = res@;
                res.push(x);
                assert(shapes(res@) =~= shapes(before).push(shape(x)));
            }
        },
        None => {},
    }
}

/// The shapes of the fenced blocks of the lines `ls`.
/// Reads the lines of a closed fence as a `pub struct` block and as a
/// `StreamEvent` block, adds what they yield to `found`, and tells whether
/// neither had its last `}` before its first `{`.
fn close_fence(fence: &Vec<Vec<char>>, found: &mut Vec<EventSchema>) -> (ok: bool)
    ensures
        ({
            let text = join_lines(views(fence@));
            &&& shapes(final(found)@) == shapes(old(found)@) + block_shapes(code_block(text, false))
                + block_shapes(code_block(text, true))
            &&& ok == (!(code_block(text, false) is Unbalanced) && !(code_block(text, true) is Unbalanced))
        }),
{
    let text = joined(fence);
    let a = code_block_of(&text, false);
    let b = code_block_of(&text, true);
    let mut ok = true;
    match a {
        BlockParse::Parsed(x) => found.push(x),
        BlockParse::Unbalanced => ok = false,
        BlockParse::Skipped => {},
    }
    match b {
        BlockParse::Parsed(x) => found.push(x),
        BlockParse::Unbalanced => ok = false,
        BlockParse::Skipped => {},
    }
    assert(shapes(found@) =~= shapes(old(found)@) + block_shapes(block_view(a)) + block_shapes(
        block_view(b),
    ));
    ok
}

fn fenced_shapes(ls: &Vec<Vec<char>>) -> (r: Vec<EventSchema>)
    ensures
        shapes(r@) == fence_pass(views(ls@)).0,
{
    let ghost lv = views(ls@);
    let mut found: Vec<EventSchema> = Vec::new();
    let mut in_fence = false;
    let mut fence: Vec<Vec<char>> = Vec::new();
    let ghost mut balanced = true;
    let fence_mark = chars_of("```");
    let mut i: usize = 0;
    while i < ls.len()
        invariant
            i <= ls@.len(),
            lv == views(ls@),
            fence_mark@ == "```"@,
            fence_pass(lv.take(i as int)) == (shapes(found@), in_fence, views(fence@), balanced),
        decreases ls.len() - i,
    {
        assert(lv.take(i + 1).drop_last() =~= lv.take(i as int));
        assert(lv.take(i + 1).last() == ls@[i as int]@);
        assert(fence_pass(lv.take(i + 1)) == fence_step(fence_pass(lv.take(i as int)), ls@[i as int]@));
        let t = trimmed(&ls[i]);
        if matches_at(&t, &fence_mark, 0) {
            if in_fence {
                let ok = close_fence(&fence, &mut found);
                proof {
                    balanced = balanced && ok;
                }
                in_fence = false;
                fence = Vec::new();
                assert(views(fence@) =~= Seq::<Seq<char>>::empty());
            } else {
                in_fence = true;
                fence = Vec::new();
                assert(views(fence@) =~= Seq::<Seq<char>>::empty());
            }
        } else if in_fence {
            let ghost before = fence@;
            let l = slice_of(&ls[i], 0, ls[i].len());
            assert(l@ =~= ls@[i as int]@);
            fence.push(l);
            assert(views(fence@) =~= views(before).push(ls@[i as int]@));
        }
        i = i + 1;
    }
    assert(lv.take(ls@.len() as int) =~= lv);
    found
}

/// `found`, with the shapes of the blank-line separated `data:` blocks of
/// the lines `ls` whose names are not there yet.
fn with_data_blocks(ls: &Vec<Vec<char>>, found: Vec<EventSchema>) -> (r: Vec<EventSchema>)
    ensures
        shapes(r@) == ({
            let p = blank_pass(views(ls@), shapes(found@));
            if p.1.len() > 0 {
                add_shape(p.0, inline_block(join_lines(p.1)))
            } else {
                p.0
            }
        }),
{
    let ghost lv = views(ls@);
    let ghost found1 = shapes(found@);
    let mut found = found;
    let mut block: Vec<Vec<char>> = Vec::new();
    let mut i: usize = 0;
    while i < ls.len()
        invariant
            i <= ls@.len(),
            lv == views(ls@),
            blank_pass(lv.take(i as int), found1) == (shapes(found@), views(block@)),
        decreases ls.len() - i,
    {
        assert(lv.take(i + 1).drop_last() =~= lv.take(i as int));
        assert(lv.take(i + 1).last() == ls@[i as int]@);
        assert(fence_pass(lv.take(i + 1)) == fence_step(fence_pass(lv.take(i as int)), ls@[i as int]@));
        let t = trimmed(&ls[i]);
        if t.len() == 0 && block.len() > 0 {
            let text = joined(&block);
            let o = inline_block_of(&text);
            add_shape_to(&mut found, o);
            block = Vec::new();
            assert(views(block@) =~= Seq::<Seq<char>>::empty());
        } else if t.len() > 0 {
            let ghost before = block@;
            let l = slice_of(&ls[i], 0, ls[i].len());
            assert(l@ =~= ls@[i as int]@);
            block.push(l);
            assert(views(block@) =~= views(before).push(ls@[i as int]@));
        }
        i = i + 1;
    }
    assert(lv.take(ls@.len() as int) =~= lv);
    if block.len() > 0 {
        let text = joined(&block);
        let o = inline_block_of(&text);
        add_shape_to(&mut found, o);
    }
    found
}

/// The payload shapes written in the documentation `doc`: those of the
/// fenced `pub struct` and `StreamEvent` blocks in order, then those of the
/// `data: Name { .. }` blocks whose names are not found yet.
pub fn doc_schemas(doc: &[char]) -> (r: Vec<EventSchema>)
    requires
        doc_blocks_balanced(doc@),
    ensures
        shapes(r@) == doc_shapes(doc@),
{
    let ls = split_lines(doc);
    let found = fenced_shapes(&ls);
    with_data_blocks(&ls, found)
}

} // verus!
