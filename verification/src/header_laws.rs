//! Laws on the shape of generated header text: where each piece sits, and
//! that pieces keep the order in which they were added.

use vstd::prelude::*;

use crate::header_gen::{
    cplusplus_closing, cplusplus_opening, guard_closing, guard_opening, header_text, line_block,
    member_line, member_lines, parameter_list, parameter_text, struct_definition, suffixed,
};
use crate::layout::{FieldLayout, StructLayout};

verus! {

/// `part` sits in `text` starting at `pos`.
pub open spec fn occurs_at(text: Seq<char>, part: Seq<char>, pos: int) -> bool {
    0 <= pos && pos + part.len() <= text.len() && text.subrange(pos, pos + part.len()) == part
}

/// `a` occurs in `text`, and `b` occurs after it without overlapping it.
pub open spec fn in_order(text: Seq<char>, a: Seq<char>, b: Seq<char>) -> bool {
    exists|p: int, q: int| occurs_at(text, a, p) && occurs_at(text, b, q) && p + a.len() <= q
}

proof fn lemma_at_after(p: Seq<char>, x: Seq<char>, part: Seq<char>, pos: int)
    requires
        occurs_at(x, part, pos),
    ensures
        occurs_at(p + x, part, p.len() + pos),
{
    assert((p + x).subrange(p.len() + pos, p.len() + pos + part.len()) =~= x.subrange(
        pos,
        pos + part.len(),
    ));
}

proof fn lemma_at_before(x: Seq<char>, q: Seq<char>, part: Seq<char>, pos: int)
    requires
        occurs_at(x, part, pos),
    ensures
        occurs_at(x + q, part, pos),
{
    assert((x + q).subrange(pos, pos + part.len()) =~= x.subrange(pos, pos + part.len()));
}

proof fn lemma_order_after(p: Seq<char>, x: Seq<char>, a: Seq<char>, b: Seq<char>)
    requires
        in_order(x, a, b),
    ensures
        in_order(p + x, a, b),
{
    let (i, j) = choose|i: int, j: int| occurs_at(x, a, i) && occurs_at(x, b, j) && i + a.len() <= j;
    lemma_at_after(p, x, a, i);
    lemma_at_after(p, x, b, j);
    assert(occurs_at(p + x, a, p.len() + i) && occurs_at(p + x, b, p.len() + j));
}

proof fn lemma_order_before(x: Seq<char>, q: Seq<char>, a: Seq<char>, b: Seq<char>)
    requires
        in_order(x, a, b),
    ensures
        in_order(x + q, a, b),
{
    let (i, j) = choose|i: int, j: int| occurs_at(x, a, i) && occurs_at(x, b, j) && i + a.len() <= j;
    lemma_at_before(x, q, a, i);
    lemma_at_before(x, q, b, j);
    assert(occurs_at(x + q, a, i) && occurs_at(x + q, b, j));
}

proof fn lemma_suffixed_append(a: Seq<Seq<char>>, b: Seq<Seq<char>>, s: Seq<char>)
    ensures
        suffixed(a + b, s) == suffixed(a, s) + suffixed(b, s),
    decreases b.len(),
{
    if b.len() == 0 {
        assert(a + b =~= a);
        assert(suffixed(a, s) + suffixed(b, s) =~= suffixed(a, s));
    } else {
        assert((a + b).drop_last() =~= a + b.drop_last());
        assert((a + b).last() == b.last());
        lemma_suffixed_append(a, b.drop_last(), s);
        assert(suffixed(a + b, s) =~= suffixed(a, s) + suffixed(b, s));
    }
}

/// Item `i` (with its suffix) sits right after the items before it.
proof fn lemma_suffixed_item_at(items: Seq<Seq<char>>, s: Seq<char>, i: int)
    requires
        0 <= i < items.len(),
    ensures
        occurs_at(suffixed(items, s), items[i] + s, suffixed(items.take(i), s).len() as int),
        suffixed(items.take(i + 1), s).len() == suffixed(items.take(i), s).len() + items[i].len()
            + s.len(),
{
    let one = seq![items[i]];
    let rest = items.skip(i + 1);
    assert(items =~= items.take(i) + one + rest);
    assert(items.take(i + 1) =~= items.take(i) + one);
    lemma_suffixed_append(items.take(i) + one, rest, s);
    lemma_suffixed_append(items.take(i), one, s);
    assert(one.drop_last() =~= Seq::<Seq<char>>::empty());
    assert(suffixed(one.drop_last(), s) =~= Seq::<char>::empty());
    assert(one.last() == items[i]);
    assert(suffixed(one, s) =~= items[i] + s);
    let pre = suffixed(items.take(i), s);
    let whole = pre + (items[i] + s) + suffixed(rest, s);
    assert(suffixed(items, s) =~= whole);
    assert(whole.subrange(pre.len() as int, (pre.len() + items[i].len() + s.len()) as int) =~= items[i]
        + s);
}

proof fn lemma_suffixed_prefix_grows(items: Seq<Seq<char>>, s: Seq<char>, i: int, j: int)
    requires
        0 <= i < j <= items.len(),
    ensures
        suffixed(items.take(i), s).len() + items[i].len() + s.len() <= suffixed(
            items.take(j),
            s,
        ).len(),
{
    lemma_suffixed_item_at(items, s, i);
    let rest = items.take(j).skip(i + 1);
    assert(items.take(j) =~= items.take(i + 1) + rest);
    lemma_suffixed_append(items.take(i + 1), rest, s);
}

/// In a list of items each followed by a suffix, an earlier item comes
/// before a later one.
pub proof fn law_suffixed_keeps_order(items: Seq<Seq<char>>, s: Seq<char>, i: int, j: int)
    requires
        0 <= i < j < items.len(),
    ensures
        in_order(suffixed(items, s), items[i] + s, items[j] + s),
{
    lemma_suffixed_item_at(items, s, i);
    lemma_suffixed_item_at(items, s, j);
    lemma_suffixed_prefix_grows(items, s, i, j);
    let p = suffixed(items.take(i), s).len() as int;
    let q = suffixed(items.take(j), s).len() as int;
    assert(occurs_at(suffixed(items, s), items[i] + s, p) && occurs_at(
        suffixed(items, s),
        items[j] + s,
        q,
    ));
}

proof fn lemma_line_block_order(items: Seq<Seq<char>>, i: int, j: int)
    requires
        0 <= i < j < items.len(),
    ensures
        in_order(line_block(items), items[i] + "\n"@, items[j] + "\n"@),
{
    law_suffixed_keeps_order(items, "\n"@, i, j);
    let tail = if items.len() > 0 {
        "\n"@
    } else {
        Seq::<char>::empty()
    };
    lemma_order_before(suffixed(items, "\n"@), tail, items[i] + "\n"@, items[j] + "\n"@);
}

/// In the generated header every section keeps the order in which its items
/// were added: an earlier include, typedef, forward declaration, struct
/// definition or function declaration comes before a later one.
#[verifier::spinoff_prover]
pub proof fn law_header_keeps_order(
    includes: Seq<Seq<char>>,
    typedefs: Seq<Seq<char>>,
    forward_declarations: Seq<Seq<char>>,
    structs: Seq<Seq<char>>,
    functions: Seq<Seq<char>>,
    guard: Seq<char>,
)
    ensures
        ({
            let h = header_text(includes, typedefs, forward_declarations, structs, functions, guard);
            &&& forall|i: int, j: int|
                0 <= i < j < includes.len() ==> in_order(
                    h,
                    #[trigger] includes[i] + "\n"@,
                    #[trigger] includes[j] + "\n"@,
                )
            &&& forall|i: int, j: int|
                0 <= i < j < typedefs.len() ==> in_order(
                    h,
                    #[trigger] typedefs[i] + "\n"@,
                    #[trigger] typedefs[j] + "\n"@,
                )
            &&& forall|i: int, j: int|
                0 <= i < j < forward_declarations.len() ==> in_order(
                    h,
                    #[trigger] forward_declarations[i] + "\n"@,
                    #[trigger] forward_declarations[j] + "\n"@,
                )
            &&& forall|i: int, j: int|
                0 <= i < j < structs.len() ==> in_order(
                    h,
                    #[trigger] structs[i] + "\n\n"@,
                    #[trigger] structs[j] + "\n\n"@,
                )
            &&& forall|i: int, j: int|
                0 <= i < j < functions.len() ==> in_order(
                    h,
                    #[trigger] functions[i] + "\n"@,
                    #[trigger] functions[j] + "\n"@,
                )
        }),
{
    let g = guard_opening(guard);
    let inc = line_block(includes);
    let oc = cplusplus_opening();
    let td = line_block(typedefs);
    let fd = line_block(forward_declarations);
    let st = suffixed(structs, "\n\n"@);
    let fu = line_block(functions);
    let c1 = cplusplus_closing();
    let c2 = guard_closing(guard);
    assert forall|i: int, j: int| 0 <= i < j < includes.len() implies in_order(
        header_text(includes, typedefs, forward_declarations, structs, functions, guard),
        #[trigger] includes[i] + "\n"@,
        #[trigger] includes[j] + "\n"@,
    ) by {
        let (a, b) = (includes[i] + "\n"@, includes[j] + "\n"@);
        lemma_line_block_order(includes, i, j);
        lemma_order_after(g, inc, a, b);
        lemma_order_before(g + inc, oc, a, b);
        lemma_order_before(g + inc + oc, td, a, b);
        lemma_order_before(g + inc + oc + td, fd, a, b);
        lemma_order_before(g + inc + oc + td + fd, st, a, b);
        lemma_order_before(g + inc + oc + td + fd + st, fu, a, b);
        lemma_order_before(g + inc + oc + td + fd + st + fu, c1, a, b);
        lemma_order_before(g + inc + oc + td + fd + st + fu + c1, c2, a, b);
    }
    assert forall|i: int, j: int| 0 <= i < j < typedefs.len() implies in_order(
        header_text(includes, typedefs, forward_declarations, structs, functions, guard),
        #[trigger] typedefs[i] + "\n"@,
        #[trigger] typedefs[j] + "\n"@,
    ) by {
        let (a, b) = (typedefs[i] + "\n"@, typedefs[j] + "\n"@);
        lemma_line_block_order(typedefs, i, j);
        lemma_order_after(g + inc + oc, td, a, b);
        lemma_order_before(g + inc + oc + td, fd, a, b);
        lemma_order_before(g + inc + oc + td + fd, st, a, b);
        lemma_order_before(g + inc + oc + td + fd + st, fu, a, b);
        lemma_order_before(g + inc + oc + td + fd + st + fu, c1, a, b);
        lemma_order_before(g + inc + oc + td + fd + st + fu + c1, c2, a, b);
    }
    assert forall|i: int, j: int| 0 <= i < j < forward_declarations.len() implies in_order(
        header_text(includes, typedefs, forward_declarations, structs, functions, guard),
        #[trigger] forward_declarations[i] + "\n"@,
        #[trigger] forward_declarations[j] + "\n"@,
    ) by {
        let (a, b) = (forward_declarations[i] + "\n"@, forward_declarations[j] + "\n"@);
        lemma_line_block_order(forward_declarations, i, j);
        lemma_order_after(g + inc + oc + td, fd, a, b);
        lemma_order_before(g + inc + oc + td + fd, st, a, b);
        lemma_order_before(g + inc + oc + td + fd + st, fu, a, b);
        lemma_order_before(g + inc + oc + td + fd + st + fu, c1, a, b);
        lemma_order_before(g + inc + oc + td + fd + st + fu + c1, c2, a, b);
    }
    assert forall|i: int, j: int| 0 <= i < j < structs.len() implies in_order(
        header_text(includes, typedefs, forward_declarations, structs, functions, guard),
        #[trigger] structs[i] + "\n\n"@,
        #[trigger] structs[j] + "\n\n"@,
    ) by {
        let (a, b) = (structs[i] + "\n\n"@, structs[j] + "\n\n"@);
        law_suffixed_keeps_order(structs, "\n\n"@, i, j);
        lemma_order_after(g + inc + oc + td + fd, st, a, b);
        lemma_order_before(g + inc + oc + td + fd + st, fu, a, b);
        lemma_order_before(g + inc + oc + td + fd + st + fu, c1, a, b);
        lemma_order_before(g + inc + oc + td + fd + st + fu + c1, c2, a, b);
    }
    assert forall|i: int, j: int| 0 <= i < j < functions.len() implies in_order(
        header_text(includes, typedefs, forward_declarations, structs, functions, guard),
        #[trigger] functions[i] + "\n"@,
        #[trigger] functions[j] + "\n"@,
    ) by {
        let (a, b) = (functions[i] + "\n"@, functions[j] + "\n"@);
        lemma_line_block_order(functions, i, j);
        lemma_order_after(g + inc + oc + td + fd + st, fu, a, b);
        lemma_order_before(g + inc + oc + td + fd + st + fu, c1, a, b);
        lemma_order_before(g + inc + oc + td + fd + st + fu + c1, c2, a, b);
    }
}

/// Where the member line of field `i` starts: after the lines of the fields
/// before it, each ended by a newline.
pub open spec fn member_offset(fields: Seq<FieldLayout>, i: int) -> int
    decreases i,
{
    if i <= 0 {
        0
    } else {
        member_offset(fields, i - 1) + member_line(fields[i - 1]).len() + 1
    }
}

proof fn lemma_member_offset_prefix(fields: Seq<FieldLayout>, i: int)
    requires
        fields.len() > 0,
        0 <= i < fields.len(),
    ensures
        member_offset(fields, i) == member_offset(fields.drop_last(), i),
    decreases i,
{
    if i > 0 {
        lemma_member_offset_prefix(fields, i - 1);
        assert(fields.drop_last()[i - 1] == fields[i - 1]);
    }
}

/// The member lines of a struct are one line per field, in field order, each
/// ended by a newline, and nothing else: the line of field `i` starts right
/// after the lines of the fields before it, and the text ends after the last.
#[verifier::spinoff_prover]
pub proof fn law_member_lines_one_per_field(fields: Seq<FieldLayout>)
    ensures
        member_lines(fields).len() == member_offset(fields, fields.len() as int),
        forall|i: int|
            0 <= i < fields.len() ==> occurs_at(
                member_lines(fields),
                #[trigger] member_line(fields[i]) + "\n"@,
                member_offset(fields, i),
            ),
    decreases fields.len(),
{
    reveal_strlit("\n");
    if fields.len() > 0 {
        let n = fields.len() as int;
        let prev = fields.drop_last();
        law_member_lines_one_per_field(prev);
        let pl = member_lines(prev);
        let line = member_line(fields.last()) + "\n"@;
        assert(member_lines(fields) == pl + member_line(fields.last()) + "\n"@);
        assert(member_lines(fields) =~= pl + line);
        assert(fields[n - 1] == fields.last());
        lemma_member_offset_prefix(fields, n - 1);
        assert forall|i: int| 0 <= i < fields.len() implies occurs_at(
            member_lines(fields),
            #[trigger] member_line(fields[i]) + "\n"@,
            member_offset(fields, i),
        ) by {
            if i < n - 1 {
                lemma_member_offset_prefix(fields, i);
                assert(prev[i] == fields[i]);
                lemma_at_before(pl, line, member_line(prev[i]) + "\n"@, member_offset(prev, i));
            } else {
                assert((pl + line).subrange(pl.len() as int, (pl.len() + line.len()) as int)
                    =~= line);
            }
        }
    }
}

/// A struct definition holds the member line of every field, in field order,
/// right after its opening line `struct <name> {`.
#[verifier::spinoff_prover]
pub proof fn law_struct_definition_lists_members(layout: StructLayout)
    ensures
        forall|i: int|
            0 <= i < layout.fields@.len() ==> occurs_at(
                struct_definition(layout),
                #[trigger] member_line(layout.fields@[i]) + "\n"@,
                ("struct "@ + layout.name@ + " {"@ + "\n"@).len() + member_offset(
                    layout.fields@,
                    i,
                ),
            ),
{
    let fields = layout.fields@;
    law_member_lines_one_per_field(fields);
    let head = "struct "@ + layout.name@ + " {"@ + "\n"@;
    let ml = member_lines(fields);
    assert forall|i: int| 0 <= i < fields.len() implies occurs_at(
        struct_definition(layout),
        #[trigger] member_line(layout.fields@[i]) + "\n"@,
        head.len() + member_offset(fields, i),
    ) by {
        let part = member_line(fields[i]) + "\n"@;
        let pos = head.len() + member_offset(fields, i);
        lemma_at_after(head, ml, part, member_offset(fields, i));
        let x0 = head + ml;
        lemma_at_before(x0, "};"@, part, pos);
        let x1 = x0 + "};"@;
        lemma_at_before(x1, "\n"@, part, pos);
        let x2 = x1 + "\n"@;
        lemma_at_before(x2, "_Static_assert(sizeof(struct "@, part, pos);
        let x3 = x2 + "_Static_assert(sizeof(struct "@;
        lemma_at_before(x3, layout.name@, part, pos);
        let x4 = x3 + layout.name@;
        lemma_at_before(x4, ") == "@, part, pos);
        let x5 = x4 + ") == "@;
        lemma_at_before(x5, crate::text::decimal_digits(layout.total_size as nat), part, pos);
        let x6 = x5 + crate::text::decimal_digits(layout.total_size as nat);
        lemma_at_before(x6, ", \"size mismatch\");"@, part, pos);
        let x7 = x6 + ", \"size mismatch\");"@;
        lemma_at_before(x7, "\n"@, part, pos);
        let x8 = x7 + "\n"@;
        lemma_at_before(x8, "_Static_assert(_Alignof(struct "@, part, pos);
        let x9 = x8 + "_Static_assert(_Alignof(struct "@;
        lemma_at_before(x9, layout.name@, part, pos);
        let x10 = x9 + layout.name@;
        lemma_at_before(x10, ") == "@, part, pos);
        let x11 = x10 + ") == "@;
        lemma_at_before(x11, crate::text::decimal_digits(layout.alignment as nat), part, pos);
        let x12 = x11 + crate::text::decimal_digits(layout.alignment as nat);
        lemma_at_before(x12, ", \"alignment mismatch\");"@, part, pos);
        let x13 = x12 + ", \"alignment mismatch\");"@;
    }
}

/// Where parameter `i` starts in a parameter list: after the parameters
/// before it, each followed by `, `.
pub open spec fn param_offset(params: Seq<(String, String)>, i: int) -> int
    decreases i,
{
    if i <= 0 {
        0
    } else {
        param_offset(params, i - 1) + parameter_text(params[i - 1]).len() + 2
    }
}

proof fn lemma_param_offset_prefix(params: Seq<(String, String)>, i: int)
    requires
        params.len() > 0,
        0 <= i < params.len(),
    ensures
        param_offset(params, i) == param_offset(params.drop_last(), i),
    decreases i,
{
    if i > 0 {
        lemma_param_offset_prefix(params, i - 1);
        assert(params.drop_last()[i - 1] == params[i - 1]);
    }
}

proof fn lemma_param_list_step(params: Seq<(String, String)>)
    requires
        params.len() >= 2,
    ensures
        parameter_list(params) == parameter_list(params.drop_last()) + ", "@ + parameter_text(
            params[params.len() - 1],
        ),
        ", "@.len() == 2,
        param_offset(params, params.len() - 1) == param_offset(
            params.drop_last(),
            params.len() - 2,
        ) + parameter_text(params[params.len() - 2]).len() + 2,
{
    reveal_strlit(", ");
    let n = params.len() as int;
    assert(params[n - 1] == params.last());
    lemma_param_offset_prefix(params, n - 2);
    assert(params.drop_last()[n - 2] == params[n - 2]);
}

#[verifier::spinoff_prover]
proof fn lemma_param_list_len(params: Seq<(String, String)>)
    requires
        params.len() >= 1,
    ensures
        parameter_list(params).len() == param_offset(params, params.len() - 1) + parameter_text(
            params[params.len() - 1],
        ).len(),
    decreases params.len(),
{
    if params.len() >= 2 {
        lemma_param_list_len(params.drop_last());
        lemma_param_list_step(params);
    }
}

#[verifier::spinoff_prover]
proof fn lemma_param_list_texts(params: Seq<(String, String)>, i: int)
    requires
        0 <= i < params.len(),
    ensures
        occurs_at(parameter_list(params), parameter_text(params[i]), param_offset(params, i)),
    decreases params.len(),
{
    let n = params.len() as int;
    if n == 1 {
        let t = parameter_text(params[0]);
        assert(t.subrange(0, t.len() as int) =~= t);
    } else {
        let prev = params.drop_last();
        let pl = parameter_list(prev);
        let last = parameter_text(params[n - 1]);
        lemma_param_list_step(params);
        lemma_param_list_len(prev);
        let whole = pl + ", "@ + last;
        if i < n - 1 {
            lemma_param_list_texts(prev, i);
            lemma_param_offset_prefix(params, i);
            assert(prev[i] == params[i]);
            lemma_at_before(pl, ", "@ + last, parameter_text(prev[i]), param_offset(prev, i));
            assert(pl + (", "@ + last) =~= whole);
        } else {
            assert(whole.subrange(pl.len() + 2int, whole.len() as int) =~= last);
        }
    }
}

#[verifier::spinoff_prover]
proof fn lemma_param_list_separators(params: Seq<(String, String)>, i: int)
    requires
        0 <= i < params.len() - 1,
    ensures
        occurs_at(
            parameter_list(params),
            ", "@,
            param_offset(params, i) + parameter_text(params[i]).len(),
        ),
    decreases params.len(),
{
    let n = params.len() as int;
    let prev = params.drop_last();
    let pl = parameter_list(prev);
    let last = parameter_text(params[n - 1]);
    lemma_param_list_step(params);
    lemma_param_list_len(prev);
    lemma_param_offset_prefix(params, i);
    assert(prev[i] == params[i]);
    let whole = pl + ", "@ + last;
    if i < n - 2 {
        lemma_param_list_separators(prev, i);
        lemma_at_before(pl, ", "@ + last, ", "@, param_offset(prev, i) + parameter_text(
            prev[i],
        ).len());
        assert(pl + (", "@ + last) =~= whole);
    } else {
        assert(whole.subrange(pl.len() as int, pl.len() + 2int) =~= ", "@);
    }
}

/// A non-empty parameter list is the parameters' `type name` texts in order,
/// joined by `, `: each parameter starts after the ones before it and their
/// separators, a `, ` follows every parameter but the last, and the list
/// ends with the last parameter.
pub proof fn law_parameter_list_joined(params: Seq<(String, String)>)
    requires
        params.len() >= 1,
    ensures
        parameter_list(params).len() == param_offset(params, params.len() - 1) + parameter_text(
            params[params.len() - 1],
        ).len(),
        forall|i: int|
            0 <= i < params.len() ==> occurs_at(
                parameter_list(params),
                #[trigger] parameter_text(params[i]),
                param_offset(params, i),
            ),
        forall|i: int|
            0 <= i < params.len() - 1 ==> occurs_at(
                parameter_list(params),
                ", "@,
                param_offset(params, i) + #[trigger] parameter_text(params[i]).len(),
            ),
{
    lemma_param_list_len(params);
    assert forall|i: int| 0 <= i < params.len() implies occurs_at(
        parameter_list(params),
        #[trigger] parameter_text(params[i]),
        param_offset(params, i),
    ) by {
        lemma_param_list_texts(params, i);
    }
    assert forall|i: int| 0 <= i < params.len() - 1 implies occurs_at(
        parameter_list(params),
        ", "@,
        param_offset(params, i) + #[trigger] parameter_text(params[i]).len(),
    ) by {
        lemma_param_list_separators(params, i);
    }
}

} // verus!
