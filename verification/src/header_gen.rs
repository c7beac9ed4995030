//! C header generation from struct layouts, typedefs and function signatures.

use vstd::prelude::*;

use crate::layout::{FieldLayout, StructLayout};
use crate::text::{decimal_digits, usize_to_decimal};

verus! {

/// The texts of a list of strings.
pub open spec fn texts(items: Seq<String>) -> Seq<Seq<char>> {
    items.map_values(|s: String| s@)
}

/// Each item followed by `suffix`, all concatenated.
pub open spec fn suffixed(items: Seq<Seq<char>>, suffix: Seq<char>) -> Seq<char>
    decreases items.len(),
{
    if items.len() == 0 {
        Seq::empty()
    } else {
        suffixed(items.drop_last(), suffix) + items.last() + suffix
    }
}

/// A section of one item per line, followed by a blank line unless empty.
pub open spec fn line_block(items: Seq<Seq<char>>) -> Seq<char> {
    suffixed(items, "\n"@) + if items.len() > 0 {
        "\n"@
    } else {
        Seq::empty()
    }
}

/// `#include <header>`
pub open spec fn include_line(header: Seq<char>) -> Seq<char> {
    "#include <"@ + header + ">"@
}

/// `typedef c_type alias;`
pub open spec fn typedef_line(c_type: Seq<char>, alias: Seq<char>) -> Seq<char> {
    "typedef "@ + c_type + " "@ + alias + ";"@
}

/// `struct name;`
pub open spec fn forward_declaration_line(name: Seq<char>) -> Seq<char> {
    "struct "@ + name + ";"@
}

/// A struct member line: four spaces, the type, a space, the name and `;`.
pub open spec fn member_line(f: FieldLayout) -> Seq<char> {
    "    "@ + f.field_type@ + " "@ + f.name@ + ";"@
}

/// The member lines of a struct, each ended by a newline.
pub open spec fn member_lines(fields: Seq<FieldLayout>) -> Seq<char>
    decreases fields.len(),
{
    if fields.len() == 0 {
        Seq::empty()
    } else {
        member_lines(fields.drop_last()) + member_line(fields.last()) + "\n"@
    }
}

/// A struct definition followed by static assertions on its size and alignment.
pub open spec fn struct_definition(layout: StructLayout) -> Seq<char> {
    "struct "@ + layout.name@ + " {"@ + "\n"@ + member_lines(layout.fields@) + "};"@ + "\n"@
        + "_Static_assert(sizeof(struct "@ + layout.name@ + ") == "@ + decimal_digits(
        layout.total_size as nat,
    ) + ", \"size mismatch\");"@ + "\n"@ + "_Static_assert(_Alignof(struct "@ + layout.name@
        + ") == "@ + decimal_digits(layout.alignment as nat) + ", \"alignment mismatch\");"@
}

/// One parameter: its type, a space and its name.
pub open spec fn parameter_text(p: (String, String)) -> Seq<char> {
    p.0@ + " "@ + p.1@
}

/// The parameters separated by `, `.
pub open spec fn parameter_list(params: Seq<(String, String)>) -> Seq<char>
    decreases params.len(),
{
    if params.len() == 0 {
        Seq::empty()
    } else if params.len() == 1 {
        parameter_text(params[0])
    } else {
        parameter_list(params.drop_last()) + ", "@ + parameter_text(params.last())
    }
}

/// `ret_type name(params);`, with `void` for an empty parameter list.
pub open spec fn function_declaration(
    ret_type: Seq<char>,
    name: Seq<char>,
    params: Seq<(String, String)>,
) -> Seq<char> {
    ret_type + " "@ + name + "("@ + (if params.len() == 0 {
        "void"@
    } else {
        parameter_list(params)
    }) + ");"@
}

/// The opening include guard.
pub open spec fn guard_opening(guard: Seq<char>) -> Seq<char> {
    "#ifndef "@ + guard + "\n"@ + "#define "@ + guard + "\n\n"@
}

/// The opening of the C++ `extern "C"` block.
pub open spec fn cplusplus_opening() -> Seq<char> {
    "#ifdef __cplusplus\n"@ + "extern \"C\" {\n"@ + "#endif\n\n"@
}

/// The closing of the C++ `extern "C"` block.
pub open spec fn cplusplus_closing() -> Seq<char> {
    "#ifdef __cplusplus\n"@ + "}\n"@ + "#endif\n\n"@
}

/// The closing include guard.
pub open spec fn guard_closing(guard: Seq<char>) -> Seq<char> {
    "#endif /* "@ + guard + " */\n"@
}

/// The whole header: include guard, includes, the C++ `extern "C"` opening,
/// typedefs, forward declarations, struct definitions, function declarations,
/// the `extern "C"` closing and the end of the include guard.
pub open spec fn header_text(
    includes: Seq<Seq<char>>,
    typedefs: Seq<Seq<char>>,
    forward_declarations: Seq<Seq<char>>,
    structs: Seq<Seq<char>>,
    functions: Seq<Seq<char>>,
    guard: Seq<char>,
) -> Seq<char> {
    guard_opening(guard) + line_block(includes) + cplusplus_opening() + line_block(typedefs)
        + line_block(forward_declarations) + suffixed(structs, "\n\n"@) + line_block(functions)
        + cplusplus_closing() + guard_closing(guard)
}

/// `part` appears somewhere in `text` as a contiguous run.
pub open spec fn occurs_in(text: Seq<char>, part: Seq<char>) -> bool {
    exists|pos: int|
        0 <= pos && pos + part.len() <= text.len() && #[trigger] text.subrange(
            pos,
            pos + part.len(),
        ) == part
}

proof fn lemma_occurs_after(p: Seq<char>, x: Seq<char>, part: Seq<char>)
    requires
        occurs_in(x, part),
    ensures
        occurs_in(p + x, part),
{
    let pos = choose|pos: int|
        0 <= pos && pos + part.len() <= x.len() && #[trigger] x.subrange(pos, pos + part.len())
            == part;
    let at = p.len() + pos;
    assert((p + x).subrange(at, at + part.len()) =~= x.subrange(pos, pos + part.len()));
}

proof fn lemma_occurs_before(x: Seq<char>, q: Seq<char>, part: Seq<char>)
    requires
        occurs_in(x, part),
    ensures
        occurs_in(x + q, part),
{
    let pos = choose|pos: int|
        0 <= pos && pos + part.len() <= x.len() && #[trigger] x.subrange(pos, pos + part.len())
            == part;
    assert((x + q).subrange(pos, pos + part.len()) =~= x.subrange(pos, pos + part.len()));
}

proof fn lemma_suffixed_occurs(items: Seq<Seq<char>>, suffix: Seq<char>, i: int)
    requires
        0 <= i < items.len(),
    ensures
        occurs_in(suffixed(items, suffix), items[i] + suffix),
    decreases items.len(),
{
    let prev = items.drop_last();
    let whole = suffixed(items, suffix);
    if i == items.len() - 1 {
        let part = items[i] + suffix;
        let at = suffixed(prev, suffix).len() as int;
        assert(whole.subrange(at, at + part.len()) =~= part);
    } else {
        lemma_suffixed_occurs(prev, suffix, i);
        assert(prev[i] == items[i]);
        lemma_occurs_before(suffixed(prev, suffix), items.last(), items[i] + suffix);
        lemma_occurs_before(suffixed(prev, suffix) + items.last(), suffix, items[i] + suffix);
    }
}

proof fn lemma_line_block_occurs(items: Seq<Seq<char>>, i: int)
    requires
        0 <= i < items.len(),
    ensures
        occurs_in(line_block(items), items[i] + "\n"@),
{
    lemma_suffixed_occurs(items, "\n"@, i);
    let tail = if items.len() > 0 {
        "\n"@
    } else {
        Seq::<char>::empty()
    };
    lemma_occurs_before(suffixed(items, "\n"@), tail, items[i] + "\n"@);
}

/// The generated header opens with its include guard and holds every line
/// that was added: each include, typedef, forward declaration and function
/// declaration on a line of its own, and each struct definition followed by
/// a blank line.
#[verifier::spinoff_prover]
pub proof fn law_header_lists_every_item(
    includes: Seq<Seq<char>>,
    typedefs: Seq<Seq<char>>,
    forward_declarations: Seq<Seq<char>>,
    structs: Seq<Seq<char>>,
    functions: Seq<Seq<char>>,
    guard: Seq<char>,
)
    ensures
        ({
            let h = header_text(includes, typedefs, forward_declarations, structs, functions, guard);
            &&& h.subrange(0, 9 + guard.len() as int) == "#ifndef "@ + guard + "\n"@
            &&& forall|i: int|
                0 <= i < includes.len() ==> occurs_in(h, #[trigger] includes[i] + "\n"@)
            &&& forall|i: int|
                0 <= i < typedefs.len() ==> occurs_in(h, #[trigger] typedefs[i] + "\n"@)
            &&& forall|i: int|
                0 <= i < forward_declarations.len() ==> occurs_in(
                    h,
                    #[trigger] forward_declarations[i] + "\n"@,
                )
            &&& forall|i: int|
                0 <= i < structs.len() ==> occurs_in(h, #[trigger] structs[i] + "\n\n"@)
            &&& forall|i: int|
                0 <= i < functions.len() ==> occurs_in(h, #[trigger] functions[i] + "\n"@)
        }),
{
    let h = header_text(includes, typedefs, forward_declarations, structs, functions, guard);
    reveal_strlit("#ifndef ");
    reveal_strlit("\n");
    assert(h.subrange(0, 9 + guard.len() as int) =~= "#ifndef "@ + guard + "\n"@);
    let g = guard_opening(guard);
    let inc = line_block(includes);
    let oc = cplusplus_opening();
    let td = line_block(typedefs);
    let fd = line_block(forward_declarations);
    let st = suffixed(structs, "\n\n"@);
    let fu = line_block(functions);
    let c1 = cplusplus_closing();
    let c2 = guard_closing(guard);
    assert forall|i: int| 0 <= i < includes.len() implies occurs_in(
        h,
        #[trigger] includes[i] + "\n"@,
    ) by {
        let part = includes[i] + "\n"@;
        lemma_line_block_occurs(includes, i);
        lemma_occurs_after(g, inc, part);
        lemma_occurs_before(g + inc, oc, part);
        lemma_occurs_before(g + inc + oc, td, part);
        lemma_occurs_before(g + inc + oc + td, fd, part);
        lemma_occurs_before(g + inc + oc + td + fd, st, part);
        lemma_occurs_before(g + inc + oc + td + fd + st, fu, part);
        lemma_occurs_before(g + inc + oc + td + fd + st + fu, c1, part);
        lemma_occurs_before(g + inc + oc + td + fd + st + fu + c1, c2, part);
    }
    assert forall|i: int| 0 <= i < typedefs.len() implies occurs_in(
        h,
        #[trigger] typedefs[i] + "\n"@,
    ) by {
        let part = typedefs[i] + "\n"@;
        lemma_line_block_occurs(typedefs, i);
        lemma_occurs_after(g + inc + oc, td, part);
        lemma_occurs_before(g + inc + oc + td, fd, part);
        lemma_occurs_before(g + inc + oc + td + fd, st, part);
        lemma_occurs_before(g + inc + oc + td + fd + st, fu, part);
        lemma_occurs_before(g + inc + oc + td + fd + st + fu, c1, part);
        lemma_occurs_before(g + inc + oc + td + fd + st + fu + c1, c2, part);
    }
    assert forall|i: int| 0 <= i < forward_declarations.len() implies occurs_in(
        h,
        #[trigger] forward_declarations[i] + "\n"@,
    ) by {
        let part = forward_declarations[i] + "\n"@;
        lemma_line_block_occurs(forward_declarations, i);
        lemma_occurs_after(g + inc + oc + td, fd, part);
        lemma_occurs_before(g + inc + oc + td + fd, st, part);
        lemma_occurs_before(g + inc + oc + td + fd + st, fu, part);
        lemma_occurs_before(g + inc + oc + td + fd + st + fu, c1, part);
        lemma_occurs_before(g + inc + oc + td + fd + st + fu + c1, c2, part);
    }
    assert forall|i: int| 0 <= i < structs.len() implies occurs_in(
        h,
        #[trigger] structs[i] + "\n\n"@,
    ) by {
        let part = structs[i] + "\n\n"@;
        lemma_suffixed_occurs(structs, "\n\n"@, i);
        lemma_occurs_after(g + inc + oc + td + fd, st, part);
        lemma_occurs_before(g + inc + oc + td + fd + st, fu, part);
        lemma_occurs_before(g + inc + oc + td + fd + st + fu, c1, part);
        lemma_occurs_before(g + inc + oc + td + fd + st + fu + c1, c2, part);
    }
    assert forall|i: int| 0 <= i < functions.len() implies occurs_in(
        h,
        #[trigger] functions[i] + "\n"@,
    ) by {
        let part = functions[i] + "\n"@;
        lemma_line_block_occurs(functions, i);
        lemma_occurs_after(g + inc + oc + td + fd + st, fu, part);
        lemma_occurs_before(g + inc + oc + td + fd + st + fu, c1, part);
        lemma_occurs_before(g + inc + oc + td + fd + st + fu + c1, c2, part);
    }
}

proof fn lemma_suffixed_step(items: Seq<Seq<char>>, i: int, suffix: Seq<char>)
    requires
        0 <= i < items.len(),
    ensures
        suffixed(items.take(i + 1), suffix) == suffixed(items.take(i), suffix) + items[i]
            + suffix,
{
    assert(items.take(i + 1).drop_last() =~= items.take(i));
}

/// Append every string of `items`, each followed by `suffix`.
fn append_each(out: &mut String, items: &Vec<String>, suffix: &str)
    ensures
        final(out)@ == old(out)@ + suffixed(texts(items@), suffix@),
{
    let n = items.len();
    let ghost start = out@;
    let mut i: usize = 0;
    while i < n
        invariant
            n == items@.len(),
            0 <= i <= n,
            out@ == start + suffixed(texts(items@).take(i as int), suffix@),
        decreases n - i,
    {
        proof {
            lemma_suffixed_step(texts(items@), i as int, suffix@);
        }
        out.append(items[i].as_str());
        out.append(suffix);
        i = i + 1;
    }
    proof {
        assert(texts(items@).take(n as int) =~= texts(items@));
    }
}

/// Append the lines of `items`, then a blank line unless there are none.
fn append_line_block(out: &mut String, items: &Vec<String>)
    ensures
        final(out)@ == old(out)@ + line_block(texts(items@)),
{
    append_each(out, items, "\n");
    if items.len() > 0 {
        out.append("\n");
    }
}

/// Generates C header file declarations from Rust struct layouts.
pub struct HeaderGenerator {
    includes: Vec<String>,
    forward_declarations: Vec<String>,
    structs: Vec<String>,
    typedefs: Vec<String>,
    function_declarations: Vec<String>,
}

impl HeaderGenerator {
    /// The `#include` lines added so far.
    pub closed spec fn includes_view(&self) -> Seq<Seq<char>> {
        texts(self.includes@)
    }

    /// The forward declarations added so far.
    pub closed spec fn forward_declarations_view(&self) -> Seq<Seq<char>> {
        texts(self.forward_declarations@)
    }

    /// The struct definitions added so far.
    pub closed spec fn structs_view(&self) -> Seq<Seq<char>> {
        texts(self.structs@)
    }

    /// The typedefs added so far.
    pub closed spec fn typedefs_view(&self) -> Seq<Seq<char>> {
        texts(self.typedefs@)
    }

    /// The function declarations added so far.
    pub closed spec fn function_declarations_view(&self) -> Seq<Seq<char>> {
        texts(self.function_declarations@)
    }

    pub fn new() -> (r: Self)
        ensures
            r.includes_view() == Seq::<Seq<char>>::empty(),
            r.typedefs_view() == Seq::<Seq<char>>::empty(),
            r.forward_declarations_view() == Seq::<Seq<char>>::empty(),
            r.structs_view() == Seq::<Seq<char>>::empty(),
            r.function_declarations_view() == Seq::<Seq<char>>::empty(),
    {
        let r = HeaderGenerator {
            includes: Vec::new(),
            forward_declarations: Vec::new(),
            structs: Vec::new(),
            typedefs: Vec::new(),
            function_declarations: Vec::new(),
        };
        proof {
            assert(texts(r.includes@) =~= Seq::<Seq<char>>::empty());
            assert(texts(r.typedefs@) =~= Seq::<Seq<char>>::empty());
            assert(texts(r.forward_declarations@) =~= Seq::<Seq<char>>::empty());
            assert(texts(r.structs@) =~= Seq::<Seq<char>>::empty());
            assert(texts(r.function_declarations@) =~= Seq::<Seq<char>>::empty());
        }
        r
    }

    /// Add an #include directive.
    pub fn add_include(&mut self, header: &str)
        ensures
            final(self).includes_view() == old(self).includes_view().push(include_line(header@)),
            final(self).typedefs_view() == old(self).typedefs_view(),
            final(self).forward_declarations_view() == old(self).forward_declarations_view(),
            final(self).structs_view() == old(self).structs_view(),
            final(self).function_declarations_view() == old(self).function_declarations_view(),
    {
        let mut line = String::from_str("#include <");
        line.append(header);
        line.append(">");
        let ghost before = self.includes@;
        self.includes.push(line);
        proof {
            assert(texts(self.includes@) =~= texts(before).push(include_line(header@)));
        }
    }

    /// Add a typedef.
    pub fn add_typedef(&mut self, c_type: &str, alias: &str)
        ensures
            final(self).typedefs_view() == old(self).typedefs_view().push(
                typedef_line(c_type@, alias@),
            ),
            final(self).includes_view() == old(self).includes_view(),
            final(self).forward_declarations_view() == old(self).forward_declarations_view(),
            final(self).structs_view() == old(self).structs_view(),
            final(self).function_declarations_view() == old(self).function_declarations_view(),
    {
        let mut line = String::from_str("typedef ");
        line.append(c_type);
        line.append(" ");
        line.append(alias);
        line.append(";");
        let ghost before = self.typedefs@;
        self.typedefs.push(line);
        proof {
            assert(texts(self.typedefs@) =~= texts(before).push(typedef_line(c_type@, alias@)));
        }
    }

    /// Add a forward declaration for a struct.
    pub fn add_forward_declaration(&mut self, name: &str)
        ensures
            final(self).forward_declarations_view() == old(
                self,
            ).forward_declarations_view().push(forward_declaration_line(name@)),
            final(self).includes_view() == old(self).includes_view(),
            final(self).typedefs_view() == old(self).typedefs_view(),
            final(self).structs_view() == old(self).structs_view(),
            final(self).function_declarations_view() == old(self).function_declarations_view(),
    {
        let mut line = String::from_str("struct ");
        line.append(name);
        line.append(";");
        let ghost before = self.forward_declarations@;
        self.forward_declarations.push(line);
        proof {
            assert(texts(self.forward_declarations@) =~= texts(before).push(
                forward_declaration_line(name@),
            ));
        }
    }

    /// Generate a C struct definition from a StructLayout.
    pub fn add_struct(&mut self, layout: &StructLayout)
        ensures
            final(self).structs_view() == old(self).structs_view().push(
                struct_definition(*layout),
            ),
            final(self).includes_view() == old(self).includes_view(),
            final(self).typedefs_view() == old(self).typedefs_view(),
            final(self).forward_declarations_view() == old(self).forward_declarations_view(),
            final(self).function_declarations_view() == old(self).function_declarations_view(),
    {
        let mut text = String::from_str("struct ");
        text.append(layout.name.as_str());
        text.append(" {");
        text.append("\n");
        let n = layout.fields.len();
        let ghost start = text@;
        let mut i: usize = 0;
        while i < n
            invariant
                n == layout.fields@.len(),
                0 <= i <= n,
                text@ == start + member_lines(layout.fields@.take(i as int)),
            decreases n - i,
        {
            proof {
                assert(layout.fields@.take(i + 1).drop_last() =~= layout.fields@.take(i as int));
            }
            let field = &layout.fields[i];
            text.append("    ");
            text.append(field.field_type.as_str());
            text.append(" ");
            text.append(field.name.as_str());
            text.append(";");
            text.append("\n");
            i = i + 1;
        }
        proof {
            assert(layout.fields@.take(n as int) =~= layout.fields@);
        }
        text.append("};");
        text.append("\n");
        text.append("_Static_assert(sizeof(struct ");
        text.append(layout.name.as_str());
        text.append(") == ");
        let size_text = usize_to_decimal(layout.total_size);
        text.append(size_text.as_str());
        text.append(", \"size mismatch\");");
        text.append("\n");
        text.append("_Static_assert(_Alignof(struct ");
        text.append(layout.name.as_str());
        text.append(") == ");
        let align_text = usize_to_decimal(layout.alignment);
        text.append(align_text.as_str());
        text.append(", \"alignment mismatch\");");
        let ghost before = self.structs@;
        self.structs.push(text);
        proof {
            assert(texts(self.structs@) =~= texts(before).push(struct_definition(*layout)));
        }
    }

    /// Add a C function declaration.
    pub fn add_function(&mut self, ret_type: &str, name: &str, params: &[(String, String)])
        ensures
            final(self).function_declarations_view() == old(
                self,
            ).function_declarations_view().push(function_declaration(ret_type@, name@, params@)),
            final(self).includes_view() == old(self).includes_view(),
            final(self).typedefs_view() == old(self).typedefs_view(),
            final(self).forward_declarations_view() == old(self).forward_declarations_view(),
            final(self).structs_view() == old(self).structs_view(),
    {
        let mut line = String::from_str(ret_type);
        line.append(" ");
        line.append(name);
        line.append("(");
        let ghost start = line@;
        if params.len() == 0 {
            line.append("void");
        } else {
            let n = params.len();
            let mut i: usize = 0;
            while i < n
                invariant
                    n == params@.len(),
                    n > 0,
                    0 <= i <= n,
                    line@ == start + parameter_list(params@.take(i as int)),
                decreases n - i,
            {
                proof {
                    assert(params@.take(i + 1).drop_last() =~= params@.take(i as int));
                    if i == 0 {
                        assert(params@.take(1)[0] == params@[0]);
                    }
                }
                if i > 0 {
                    line.append(", ");
                }
                line.append(params[i].0.as_str());
                line.append(" ");
                line.append(params[i].1.as_str());
                i = i + 1;
            }
            proof {
                assert(params@.take(n as int) =~= params@);
            }
        }
        line.append(");");
        let ghost before = self.function_declarations@;
        self.function_declarations.push(line);
        proof {
            assert(texts(self.function_declarations@) =~= texts(before).push(
                function_declaration(ret_type@, name@, params@),
            ));
        }
    }

    /// Generate the complete header file content.
    pub fn generate(&self, guard: &str) -> (r: String)
        ensures
            r@ == header_text(
                self.includes_view(),
                self.typedefs_view(),
                self.forward_declarations_view(),
                self.structs_view(),
                self.function_declarations_view(),
                guard@,
            ),
    {
        let mut out = String::new();
        out.append("#ifndef ");
        out.append(guard);
        out.append("\n");
        out.append("#define ");
        out.append(guard);
        out.append("\n\n");
        append_line_block(&mut out, &self.includes);
        out.append("#ifdef __cplusplus\n");
        out.append("extern \"C\" {\n");
        out.append("#endif\n\n");
        append_line_block(&mut out, &self.typedefs);
        append_line_block(&mut out, &self.forward_declarations);
        append_each(&mut out, &self.structs, "\n\n");
        append_line_block(&mut out, &self.function_declarations);
        out.append("#ifdef __cplusplus\n");
        out.append("}\n");
        out.append("#endif\n\n");
        out.append("#endif /* ");
        out.append(guard);
        out.append(" */\n");
        proof {
            assert(out@ =~= header_text(
                self.includes_view(),
                self.typedefs_view(),
                self.forward_declarations_view(),
                self.structs_view(),
                self.function_declarations_view(),
                guard@,
            ));
        }
        out
    }
}

impl Default for HeaderGenerator {
    fn default() -> (r: Self)
        ensures
            r.includes_view() == Seq::<Seq<char>>::empty(),
            r.typedefs_view() == Seq::<Seq<char>>::empty(),
            r.forward_declarations_view() == Seq::<Seq<char>>::empty(),
            r.structs_view() == Seq::<Seq<char>>::empty(),
            r.function_declarations_view() == Seq::<Seq<char>>::empty(),
    {
        Self::new()
    }
}

} // verus!
