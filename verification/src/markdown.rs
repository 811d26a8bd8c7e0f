//! The pages that describe a lowered tree, in Markdown.

use vstd::prelude::*;
use vstd::string::StringExecFns;
use camino::Utf8PathBuf;
use heck::ToTitleCase;
use crate::ast::{
    views, ArgView, EnumFieldView, Extension, ExtensionInterface, ExtensionInterfaceView,
    ExtensionView, FlagFieldView, Func, FuncView, Interface, InterfaceView, Namespace,
    NamespaceView, StructFieldView, TypeDef, TypeDefView, TypeKind, TypeKindView, Version,
};
use crate::hir::{extension_is_lowered, namespace_is_lowered, type_def_is_lowered};
use crate::text::{binary, binary_string, decimal, decimal_string};

verus! {

/// The parts one after the other.
pub open spec fn concat(parts: Seq<Seq<char>>) -> Seq<char>
    decreases parts.len(),
{
    if parts.len() == 0 {
        Seq::empty()
    } else {
        concat(parts.drop_last()) + parts.last()
    }
}

/// A section of a page: the heading on a line of its own and then the
/// parts. Without parts there is no section, and so no heading.
pub open spec fn section(heading: Seq<char>, parts: Seq<Seq<char>>) -> Seq<char> {
    if parts.len() == 0 {
        Seq::empty()
    } else {
        heading + "\n"@ + concat(parts)
    }
}

/// The line that shows a version, and an empty line after it.
pub open spec fn version_text(v: Version) -> Seq<char> {
    "*v"@ + decimal(v.0 as nat) + "."@ + decimal(v.1 as nat) + "."@ + decimal(v.2 as nat)
        + "*\n\n"@
}

/// The line that shows a version, and an empty line after it.
pub fn write_version(v: Version) -> (s: String)
    ensures
        s@ == version_text(v),
{
    let mut s = "*v".to_owned();
    let major = decimal_string(v.0);
    s.append(major.as_str());
    s.append(".");
    let minor = decimal_string(v.1);
    s.append(minor.as_str());
    s.append(".");
    let patch = decimal_string(v.2);
    s.append(patch.as_str());
    s.append("*\n\n");
    s
}

/// An argument as a signature shows it.
pub open spec fn arg_text(a: ArgView) -> Seq<char> {
    a.name + ": "@ + a.ty.text()
}

/// The arguments as a signature shows them, with a comma and a space
/// between two of them.
pub open spec fn args_text(args: Seq<ArgView>) -> Seq<char>
    decreases args.len(),
{
    if args.len() == 0 {
        Seq::empty()
    } else if args.len() == 1 {
        arg_text(args[0])
    } else {
        args_text(args.drop_last()) + ", "@ + arg_text(args.last())
    }
}

/// What a page shows of a method or an event: its signature as a heading,
/// then its comment.
pub open spec fn func_text(f: FuncView) -> Seq<char> {
    "##### `"@ + f.name + "("@ + args_text(f.args) + ")"@ + match f.ret {
        Some(t) => " -> "@ + t.text(),
        None => Seq::empty(),
    } + "`\n"@ + f.docs + "\n"@
}

/// Writes what a page shows of a method or an event.
pub fn document_func(f: &Func) -> (s: String)
    ensures
        s@ == func_text(f@),
{
    let mut s = "##### `".to_owned();
    s.append(f.name.as_str());
    s.append("(");
    let ghost head = s@;
    let mut i: usize = 0;
    proof {
        assert(args_text(f@.args.take(0)) =~= Seq::empty());
        assert(s@ =~= head + args_text(f@.args.take(0)));
    }
    while i < f.args.len()
        invariant
            i <= f.args.len(),
            s@ == head + args_text(f@.args.take(i as int)),
        decreases f.args.len() - i,
    {
        let ghost before = f@.args.take(i as int);
        let ghost upto = f@.args.take(i + 1);
        proof {
            assert(upto.drop_last() =~= before);
            assert(upto.last() == f.args[i as int]@);
        }
        if i > 0 {
            s.append(", ");
        }
        s.append(f.args[i].name.as_str());
        s.append(": ");
        let ty = f.args[i].ty.to_string();
        s.append(ty.as_str());
        proof {
            if i == 0 {
                assert(before =~= Seq::empty());
                assert(s@ =~= head + args_text(upto));
            } else {
                assert(s@ =~= head + args_text(upto));
            }
        }
        i += 1;
    }
    proof {
        assert(f@.args.take(f.args.len() as int) =~= f@.args);
    }
    s.append(")");
    match &f.ret {
        Some(ret) => {
            s.append(" -> ");
            let ty = ret.to_string();
            s.append(ty.as_str());
        },
        None => {},
    }
    s.append("`\n");
    s.append(f.docs.as_str());
    s.append("\n");
    proof {
        assert(s@ =~= func_text(f@));
    }
    s
}

/// Writes a section of a page: the heading `name` on a line of its own and
/// then what `f` writes of each item, in order. Without items nothing is
/// written.
pub fn doc_all<T, F: Fn(&T) -> String>(f: F, items: &[T], name: &str) -> (s: String)
    requires
        forall|i: int| 0 <= i < items.len() ==> call_requires(f, (&#[trigger] items[i],)),
    ensures
        exists|texts: Seq<String>|
            {
                &&& texts.len() == items.len()
                &&& forall|i: int|
                    0 <= i < items.len() ==> call_ensures(f, (&items[i],), #[trigger] texts[i])
                &&& s@ == section(name@, views(texts))
            },
{
    let mut s = String::new();
    let ghost mut texts: Seq<String> = Seq::empty();
    if items.len() > 0 {
        s.append(name);
        s.append("\n");
    }
    let ghost head = s@;
    let mut i: usize = 0;
    proof {
        assert(views(texts) =~= Seq::empty());
        assert(s@ =~= head + concat(views(texts)));
    }
    while i < items.len()
        invariant
            i <= items.len(),
            forall|i: int| 0 <= i < items.len() ==> call_requires(f, (&#[trigger] items[i],)),
            texts.len() == i,
            forall|j: int| 0 <= j < i ==> call_ensures(f, (&items[j],), #[trigger] texts[j]),
            s@ == head + concat(views(texts)),
        decreases items.len() - i,
    {
        let part = f(&items[i]);
        s.append(part.as_str());
        proof {
            let before = texts;
            texts = texts.push(part);
            assert(views(texts).drop_last() =~= views(before));
            assert(views(texts).last() == part@);
            assert(s@ =~= head + concat(views(texts)));
        }
        i += 1;
    }
    proof {
        if items.len() > 0 {
            assert(head =~= name@ + "\n"@);
        } else {
            assert(head =~= Seq::empty());
            assert(s@ =~= Seq::empty());
        }
    }
    s
}

/// What a page shows of each method or event.
pub open spec fn func_texts(fs: Seq<FuncView>) -> Seq<Seq<char>> {
    fs.map_values(|f: FuncView| func_text(f))
}

/// Writes a section of methods or of events.
fn document_funcs(fs: &Vec<Func>, heading: &str) -> (s: String)
    ensures
        s@ == section(heading@, func_texts(views(fs@))),
{
    let s = doc_all(document_func, fs.as_slice(), heading);
    proof {
        let texts = choose|texts: Seq<String>|
            {
                &&& texts.len() == fs.len()
                &&& forall|i: int|
                    0 <= i < fs.len() ==> call_ensures(document_func, (&fs[i],), #[trigger] texts[i])
                &&& s@ == section(heading@, views(texts))
            };
        assert(views(texts) =~= func_texts(views(fs@)));
    }
    s
}

/// What a page shows of an interface of the namespace: its name as a
/// heading, its version, its comment, its events and its methods.
pub open spec fn interface_text(i: InterfaceView) -> Seq<char> {
    "### Interface `"@ + i.name + "`\n"@ + version_text(i.version) + i.docs + "\n"@ + section(
        "#### Events"@,
        func_texts(i.events),
    ) + section("#### Methods"@, func_texts(i.methods))
}

/// Writes what a page shows of an interface of the namespace.
pub fn document_interface(i: &Interface) -> (s: String)
    ensures
        s@ == interface_text(i@),
{
    let mut s = "### Interface `".to_owned();
    s.append(i.name.as_str());
    s.append("`\n");
    let version = write_version(i.version);
    s.append(version.as_str());
    s.append(i.docs.as_str());
    s.append("\n");
    let events = document_funcs(&i.events, "#### Events");
    s.append(events.as_str());
    let methods = document_funcs(&i.methods, "#### Methods");
    s.append(methods.as_str());
    s
}

/// What a page shows of an interface of an extension: its name as a
/// heading, its comment, its events and its methods.
pub open spec fn einterface_text(i: ExtensionInterfaceView) -> Seq<char> {
    "### Interface `"@ + i.name + "`\n"@ + i.docs + "\n"@ + section(
        "#### Events"@,
        func_texts(i.events),
    ) + section("#### Methods"@, func_texts(i.methods))
}

/// Writes what a page shows of an interface of an extension.
pub fn document_einterface(i: &ExtensionInterface) -> (s: String)
    ensures
        s@ == einterface_text(i@),
{
    let mut s = "### Interface `".to_owned();
    s.append(i.name.as_str());
    s.append("`\n");
    s.append(i.docs.as_str());
    s.append("\n");
    let events = document_funcs(&i.events, "#### Events");
    s.append(events.as_str());
    let methods = document_funcs(&i.methods, "#### Methods");
    s.append(methods.as_str());
    s
}

/// The line of a field of a struct.
pub open spec fn struct_field_text(f: StructFieldView) -> Seq<char> {
    "- `"@ + f.name + "`: `"@ + f.ty.text() + "`\n"@
}

/// The line of a field of an enum.
pub open spec fn enum_field_text(f: EnumFieldView) -> Seq<char> {
    "- `"@ + f.name + "`\n"@
}

/// The line of a field of flags, with its value in binary digits.
pub open spec fn flag_field_text(f: FlagFieldView) -> Seq<char>
    recommends
        f.value is Some,
{
    "- `"@ + f.name + " = "@ + binary(f.value->Some_0 as nat) + "`\n"@
}

/// The word for the kind of a declared type.
pub open spec fn kind_word(k: TypeKindView) -> Seq<char> {
    match k {
        TypeKindView::Struct(_) => "Struct"@,
        TypeKindView::Enum(_) => "Enum"@,
        TypeKindView::Flags(_) => "Flags"@,
    }
}

/// The lines of the fields of a declared type.
pub open spec fn field_texts(k: TypeKindView) -> Seq<Seq<char>> {
    match k {
        TypeKindView::Struct(s) => s.fields.map_values(|f: StructFieldView| struct_field_text(f)),
        TypeKindView::Enum(e) => e.fields.map_values(|f: EnumFieldView| enum_field_text(f)),
        TypeKindView::Flags(f) => f.fields.map_values(|f: FlagFieldView| flag_field_text(f)),
    }
}

/// What a page shows of a declared type: its kind and its name as a
/// heading, its comment, and a line for each field.
pub open spec fn type_def_text(t: TypeDefView) -> Seq<char> {
    "### "@ + kind_word(t.kind) + " `"@ + t.name + "`\n"@ + t.docs + "\n"@ + concat(
        field_texts(t.kind),
    )
}

/// Writes what a page shows of a declared type of a lowered tree.
pub fn document_type(ty: &TypeDef) -> (s: String)
    requires
        type_def_is_lowered(ty@),
    ensures
        s@ == type_def_text(ty@),
{
    let mut s = "### ".to_owned();
    match &ty.kind {
        TypeKind::Struct(_) => {
            s.append("Struct");
        },
        TypeKind::Enum(_) => {
            s.append("Enum");
        },
        TypeKind::Flags(_) => {
            s.append("Flags");
        },
    }
    s.append(" `");
    s.append(ty.name.as_str());
    s.append("`\n");
    s.append(ty.docs.as_str());
    s.append("\n");
    let ghost head = s@;
    let ghost all = field_texts(ty@.kind);
    proof {
        assert(all.take(0) =~= Seq::empty());
        assert(s@ =~= head + concat(all.take(0)));
    }
    match &ty.kind {
        TypeKind::Struct(st) => {
            let mut i: usize = 0;
            while i < st.fields.len()
                invariant
                    i <= st.fields.len(),
                    all == st@.fields.map_values(|f: StructFieldView| struct_field_text(f)),
                    s@ == head + concat(all.take(i as int)),
                decreases st.fields.len() - i,
            {
                proof {
                    assert(all.take(i + 1).drop_last() =~= all.take(i as int));
                    assert(all.take(i + 1).last() == struct_field_text(st.fields[i as int]@));
                }
                s.append("- `");
                s.append(st.fields[i].name.as_str());
                s.append("`: `");
                let t = st.fields[i].ty.to_string();
                s.append(t.as_str());
                s.append("`\n");
                proof {
                    assert(s@ =~= head + concat(all.take(i + 1)));
                }
                i += 1;
            }
            proof {
                assert(all.take(st.fields.len() as int) =~= all);
            }
        },
        TypeKind::Enum(e) => {
            let mut i: usize = 0;
            while i < e.fields.len()
                invariant
                    i <= e.fields.len(),
                    all == e@.fields.map_values(|f: EnumFieldView| enum_field_text(f)),
                    s@ == head + concat(all.take(i as int)),
                decreases e.fields.len() - i,
            {
                proof {
                    assert(all.take(i + 1).drop_last() =~= all.take(i as int));
                    assert(all.take(i + 1).last() == enum_field_text(e.fields[i as int]@));
                }
                s.append("- `");
                s.append(e.fields[i].name.as_str());
                s.append("`\n");
                proof {
                    assert(s@ =~= head + concat(all.take(i + 1)));
                }
                i += 1;
            }
            proof {
                assert(all.take(e.fields.len() as int) =~= all);
            }
        },
        TypeKind::Flags(f) => {
            let mut i: usize = 0;
            while i < f.fields.len()
                invariant
                    i <= f.fields.len(),
                    forall|j: int| 0 <= j < f.fields.len() ==> (#[trigger] f@.fields[j]).value is Some,
                    all == f@.fields.map_values(|f: FlagFieldView| flag_field_text(f)),
                    s@ == head + concat(all.take(i as int)),
                decreases f.fields.len() - i,
            {
                proof {
                    assert(all.take(i + 1).drop_last() =~= all.take(i as int));
                    assert(all.take(i + 1).last() == flag_field_text(f.fields[i as int]@));
                    assert(f@.fields[i as int] == f.fields[i as int]@);
                }
                s.append("- `");
                s.append(f.fields[i].name.as_str());
                s.append(" = ");
                let digits = binary_string(f.fields[i].value.unwrap());
                s.append(digits.as_str());
                s.append("`\n");
                proof {
                    assert(s@ =~= head + concat(all.take(i + 1)));
                }
                i += 1;
            }
            proof {
                assert(all.take(f.fields.len() as int) =~= all);
            }
        },
    }
    s
}

/// What the pages of the interfaces of an extension show.
pub open spec fn einterface_texts(is: Seq<ExtensionInterfaceView>) -> Seq<Seq<char>> {
    is.map_values(|i: ExtensionInterfaceView| einterface_text(i))
}

/// What a page shows of each declared type.
pub open spec fn type_def_texts(ts: Seq<TypeDefView>) -> Seq<Seq<char>> {
    ts.map_values(|t: TypeDefView| type_def_text(t))
}

/// What a page shows of each interface of the namespace.
pub open spec fn interface_texts(is: Seq<InterfaceView>) -> Seq<Seq<char>> {
    is.map_values(|i: InterfaceView| interface_text(i))
}

/// Writes the section of the declared types of a lowered tree.
fn document_types(ts: &Vec<TypeDef>) -> (s: String)
    requires
        forall|i: int| 0 <= i < ts.len() ==> type_def_is_lowered(#[trigger] views(ts@)[i]),
    ensures
        s@ == section("## Types"@, type_def_texts(views(ts@))),
{
    proof {
        assert forall|i: int| 0 <= i < ts.len() implies call_requires(
            document_type,
            (&#[trigger] ts[i],),
        ) by {
            assert(views(ts@)[i] == ts[i]@);
        }
    }
    let s = doc_all(document_type, ts.as_slice(), "## Types");
    proof {
        let texts = choose|texts: Seq<String>|
            {
                &&& texts.len() == ts.len()
                &&& forall|i: int|
                    0 <= i < ts.len() ==> call_ensures(document_type, (&ts[i],), #[trigger] texts[i])
                &&& s@ == section("## Types"@, views(texts))
            };
        assert(views(texts) =~= type_def_texts(views(ts@)));
    }
    s
}

/// The page of an extension: its name as the title, its version, its
/// comment, its interfaces and its types.
pub open spec fn extension_text(e: ExtensionView) -> Seq<char> {
    "# Extension `"@ + e.name + "`\n"@ + version_text(e.version) + e.docs + "\n"@ + section(
        "## Interfaces"@,
        einterface_texts(e.interfaces),
    ) + section("## Types"@, type_def_texts(e.types))
}

/// Writes the page of a lowered extension.
pub fn document_extension(ext: &Extension) -> (s: String)
    requires
        extension_is_lowered(ext@),
    ensures
        s@ == extension_text(ext@),
{
    let mut s = "# Extension `".to_owned();
    s.append(ext.name.as_str());
    s.append("`\n");
    let version = write_version(ext.version);
    s.append(version.as_str());
    s.append(ext.docs.as_str());
    s.append("\n");
    let interfaces = doc_all(document_einterface, ext.interfaces.as_slice(), "## Interfaces");
    proof {
        let texts = choose|texts: Seq<String>|
            {
                &&& texts.len() == ext.interfaces.len()
                &&& forall|i: int|
                    0 <= i < ext.interfaces.len() ==> call_ensures(
                        document_einterface,
                        (&ext.interfaces[i],),
                        #[trigger] texts[i],
                    )
                &&& interfaces@ == section("## Interfaces"@, views(texts))
            };
        assert(views(texts) =~= einterface_texts(ext@.interfaces));
    }
    s.append(interfaces.as_str());
    proof {
        assert(ext@.types == views(ext.types@));
    }
    let types = document_types(&ext.types);
    s.append(types.as_str());
    s
}

/// The name in title case, as `heck` writes it: the words of the name,
/// each with a capital first letter, with a space between two of them.
pub uninterp spec fn title_case(name: Seq<char>) -> Seq<char>;

/// The name in title case. The body is `ToTitleCase::to_title_case` of
/// `heck`, which for a given name always gives the same title.
#[verifier::external_body]
fn to_title_case(name: &str) -> (title: String)
    ensures
        title@ == title_case(name@),
{
    name.to_title_case()
}

/// The name of the file of the page of the extension `name`. The body makes
/// a path of the name and gives it the extension `md` with
/// `Utf8Path::with_extension` of `camino`. What counts as the extension of a
/// path depends on the platform's separators, so nothing is said of the
/// result.
#[verifier::external_body]
fn page_file_name(name: &str) -> String {
    Utf8PathBuf::from(name).with_extension("md").into_string()
}

/// A page: the path of its file, from the directory of all the pages, and
/// its text.
#[derive(Debug, PartialEq)]
pub struct Page {
    pub path: String,
    pub text: String,
}

/// What a [`Page`] stands for.
pub struct PageView {
    pub path: Seq<char>,
    pub text: Seq<char>,
}

impl View for Page {
    type V = PageView;

    open spec fn view(&self) -> PageView {
        PageView { path: self.path@, text: self.text@ }
    }
}

impl Clone for Page {
    fn clone(&self) -> (res: Self)
        ensures
            res@ == self@,
    {
        Page { path: self.path.clone(), text: self.text.clone() }
    }
}

/// The line that leads to the file of a page, under the given title.
pub open spec fn link_text(title: Seq<char>, file: Seq<char>) -> Seq<char> {
    "- ["@ + title + "]("@ + file + ")\n"@
}

/// Writes a line that leads to the file of a page, under the given title.
pub fn document_link(title: &str, file: &str) -> (s: String)
    ensures
        s@ == link_text(title@, file@),
{
    let mut s = "- [".to_owned();
    s.append(title);
    s.append("](");
    s.append(file);
    s.append(")\n");
    s
}

/// The lines of the first page that lead to the pages of the
/// extensions, each under the name of its extension.
pub open spec fn extension_links(es: Seq<ExtensionView>, files: Seq<Seq<char>>) -> Seq<Seq<char>> {
    Seq::new(es.len(), |i: int| link_text(es[i].name, files[i]))
}

/// The lines of the summary that lead to the pages of the extensions,
/// each under the title given for it.
pub open spec fn summary_links(titles: Seq<Seq<char>>, files: Seq<Seq<char>>) -> Seq<Seq<char>> {
    Seq::new(titles.len(), |i: int| link_text(titles[i], files[i]))
}

/// The first page: the interfaces and the types of the namespace itself,
/// and the way to the pages of its extensions.
pub open spec fn readme_text(ns: NamespaceView, files: Seq<Seq<char>>) -> Seq<char> {
    "# Hypercosm Protocol Docs\n"@ + section("## Interfaces"@, interface_texts(ns.interfaces))
        + section("## Types"@, type_def_texts(ns.types)) + section(
        "## Extensions"@,
        extension_links(ns.extensions, files),
    )
}

/// The summary: the way to every page, the first page under the title
/// `Core`.
pub open spec fn summary_text(titles: Seq<Seq<char>>, files: Seq<Seq<char>>) -> Seq<char> {
    link_text("Core"@, "README.md"@) + concat(summary_links(titles, files))
}

/// The pages of the extensions, in the files of the given names.
pub open spec fn extension_pages(es: Seq<ExtensionView>, files: Seq<Seq<char>>) -> Seq<PageView> {
    Seq::new(es.len(), |i: int| PageView { path: files[i], text: extension_text(es[i]) })
}

/// All the pages of a tree, given for each of its extensions the name of
/// the file of its page and its title in the summary: a page for each
/// extension, in order, then the summary in `SUMMARY.md`, then the first
/// page in `README.md`.
pub open spec fn pages_of(
    ns: NamespaceView,
    files: Seq<Seq<char>>,
    titles: Seq<Seq<char>>,
) -> Seq<PageView>
    recommends
        files.len() == ns.extensions.len(),
        titles.len() == ns.extensions.len(),
{
    extension_pages(ns.extensions, files).push(
        PageView { path: "SUMMARY.md"@, text: summary_text(titles, files) },
    ).push(PageView { path: "README.md"@, text: readme_text(ns, files) })
}

/// The titles of the extensions in the summary: their names in title
/// case.
pub open spec fn extension_titles(es: Seq<ExtensionView>) -> Seq<Seq<char>> {
    Seq::new(es.len(), |i: int| title_case(es[i].name))
}

/// Writes all the pages of a lowered tree, the page of each extension
/// under the file name and, in the summary, under the title given for it.
pub fn document_with(tree: &Namespace, files: &Vec<String>, titles: &Vec<String>) -> (pages: Vec<
    Page,
>)
    requires
        namespace_is_lowered(tree@),
        files.len() == tree.extensions.len(),
        titles.len() == tree.extensions.len(),
    ensures
        views(pages@) == pages_of(tree@, views(files@), views(titles@)),
{
    let ghost ns = tree@;
    let ghost names = views(files@);
    let ghost heads = views(titles@);
    let mut pages: Vec<Page> = Vec::new();
    let mut readme = "# Hypercosm Protocol Docs\n".to_owned();
    let interfaces = doc_all(document_interface, tree.interfaces.as_slice(), "## Interfaces");
    proof {
        let texts = choose|texts: Seq<String>|
            {
                &&& texts.len() == tree.interfaces.len()
                &&& forall|i: int|
                    0 <= i < tree.interfaces.len() ==> call_ensures(
                        document_interface,
                        (&tree.interfaces[i],),
                        #[trigger] texts[i],
                    )
                &&& interfaces@ == section("## Interfaces"@, views(texts))
            };
        assert(views(texts) =~= interface_texts(ns.interfaces));
        assert(ns.types == views(tree.types@));
    }
    readme.append(interfaces.as_str());
    let types = document_types(&tree.types);
    readme.append(types.as_str());
    let mut summary = document_link("Core", "README.md");
    let ghost readme_head = readme@;
    let ghost summary_head = summary@;
    let ghost links = extension_links(ns.extensions, names);
    let ghost titled = summary_links(heads, names);
    if tree.extensions.len() > 0 {
        readme.append("## Extensions");
        readme.append("\n");
    }
    let ghost list_head = readme@;
    let mut i: usize = 0;
    proof {
        assert(links.take(0) =~= Seq::empty());
        assert(titled.take(0) =~= Seq::empty());
        assert(readme@ =~= list_head + concat(links.take(0)));
        assert(summary@ =~= summary_head + concat(titled.take(0)));
        assert(views(pages@) =~= extension_pages(ns.extensions, names).take(0));
    }
    while i < tree.extensions.len()
        invariant
            i <= tree.extensions.len(),
            files.len() == tree.extensions.len(),
            titles.len() == tree.extensions.len(),
            ns == tree@,
            names == views(files@),
            heads == views(titles@),
            namespace_is_lowered(ns),
            links == extension_links(ns.extensions, names),
            titled == summary_links(heads, names),
            readme@ == list_head + concat(links.take(i as int)),
            summary@ == summary_head + concat(titled.take(i as int)),
            views(pages@) == extension_pages(ns.extensions, names).take(i as int),
        decreases tree.extensions.len() - i,
    {
        let ext = &tree.extensions[i];
        let file = &files[i];
        let title = &titles[i];
        proof {
            assert(ns.extensions[i as int] == ext@);
            assert(names[i as int] == file@);
            assert(heads[i as int] == title@);
            assert(links.take(i + 1).drop_last() =~= links.take(i as int));
            assert(links.take(i + 1).last() == link_text(ext@.name, file@));
            assert(titled.take(i + 1).drop_last() =~= titled.take(i as int));
            assert(titled.take(i + 1).last() == link_text(title@, file@));
        }
        let text = document_extension(ext);
        let ghost before = views(pages@);
        pages.push(Page { path: file.clone(), text });
        let link = document_link(ext.name.as_str(), file.as_str());
        readme.append(link.as_str());
        let entry = document_link(title.as_str(), file.as_str());
        summary.append(entry.as_str());
        proof {
            assert(views(pages@) =~= before.push(
                PageView { path: file@, text: extension_text(ext@) },
            ));
            assert(views(pages@) =~= extension_pages(ns.extensions, names).take(i + 1));
            assert(readme@ =~= list_head + concat(links.take(i + 1)));
            assert(summary@ =~= summary_head + concat(titled.take(i + 1)));
        }
        i += 1;
    }
    proof {
        assert(links.take(links.len() as int) =~= links);
        assert(titled.take(titled.len() as int) =~= titled);
        assert(extension_pages(ns.extensions, names).take(i as int) =~= extension_pages(
            ns.extensions,
            names,
        ));
        assert(readme@ =~= readme_head + section("## Extensions"@, links));
        assert(readme@ == readme_text(ns, names));
        assert(summary@ == summary_text(heads, names));
    }
    let ghost before = views(pages@);
    pages.push(Page { path: "SUMMARY.md".to_owned(), text: summary });
    pages.push(Page { path: "README.md".to_owned(), text: readme });
    proof {
        assert(views(pages@) =~= before.push(
            PageView { path: "SUMMARY.md"@, text: summary_text(heads, names) },
        ).push(PageView { path: "README.md"@, text: readme_text(ns, names) }));
    }
    pages
}

/// Writes all the pages of a lowered tree. The page of an extension is in
/// the file of the extension's name with `md` for its extension, as the
/// platform's paths have it; the first page leads there under the name of
/// the extension, the summary under that name in title case.
pub fn document(tree: &Namespace) -> (pages: Vec<Page>)
    requires
        namespace_is_lowered(tree@),
    ensures
        exists|files: Seq<Seq<char>>|
            files.len() == tree@.extensions.len() && views(pages@) == #[trigger] pages_of(
                tree@,
                files,
                extension_titles(tree@.extensions),
            ),
{
    let mut files: Vec<String> = Vec::new();
    let mut titles: Vec<String> = Vec::new();
    let mut i: usize = 0;
    proof {
        assert(views(titles@) =~= extension_titles(tree@.extensions).take(0));
    }
    while i < tree.extensions.len()
        invariant
            i <= tree.extensions.len(),
            files.len() == i,
            titles.len() == i,
            views(titles@) == extension_titles(tree@.extensions).take(i as int),
        decreases tree.extensions.len() - i,
    {
        let name = tree.extensions[i].name.as_str();
        let ghost before = views(titles@);
        proof {
            assert(tree@.extensions[i as int] == tree.extensions[i as int]@);
        }
        files.push(page_file_name(name));
        let title = to_title_case(name);
        titles.push(title);
        proof {
            assert(views(titles@) =~= before.push(title_case(name@)));
            assert(views(titles@) =~= extension_titles(tree@.extensions).take(i + 1));
        }
        i += 1;
    }
    proof {
        assert(extension_titles(tree@.extensions).take(i as int) =~= extension_titles(
            tree@.extensions,
        ));
    }
    let pages = document_with(tree, &files, &titles);
    proof {
        assert(views(files@).len() == tree@.extensions.len());
    }
    pages
}

} // verus!
