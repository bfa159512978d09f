//! Expansion of a batch of tagged foreign declarations into plain
//! declarations and lazily bound entry points.
use vstd::prelude::*;

verus! {

/// One parameter of a declared function: its name and the text of its type.
pub struct Parameter {
    pub name: String,
    pub ty: String,
}

/// A function signature as it is declared for load-time linking.
pub struct Signature {
    pub name: String,
    pub params: Vec<Parameter>,
    /// The text of the return type; `None` for a function returning nothing.
    pub output: Option<String>,
    pub variadic: bool,
}

/// A declared function with the library tags found on it.
pub struct FunctionDeclaration {
    pub signature: Signature,
    pub libraries: Vec<String>,
}

/// A batch of declarations sharing one calling convention.
pub struct DeclarationBatch {
    pub abi: String,
    pub functions: Vec<FunctionDeclaration>,
}

/// An entry of the table that maps a library tag to a library name.
pub struct LibraryTag {
    pub tag: String,
    pub library: String,
}

/// The lazily bound entry point generated for one function: it is named
/// after the function and wired to `libraries[library]` of its batch.
pub struct GeneratedBinding {
    pub name: String,
    pub library: usize,
}

/// What a valid batch turns into.
pub struct GeneratedBatch {
    pub abi: String,
    /// The signatures, without their tags, for load-time linking.
    pub declarations: Vec<Signature>,
    /// One entry per library name, in order of first use.
    pub libraries: Vec<String>,
    /// One lazily bound entry point per function, in batch order.
    pub bindings: Vec<GeneratedBinding>,
}

/// Why a batch was refused.
#[derive(Clone, Copy, PartialEq, Eq, Structural, Debug)]
pub enum GenerationErrorKind {
    /// The function carries no library tag.
    MissingLibrary,
    /// The function carries more than one library tag.
    MultipleLibraries,
    /// The function's tag is not in the table.
    UnknownLibrary,
    /// The signature cannot be expressed in the batch's calling convention.
    UnsupportedSignature,
    /// An earlier function of the batch has the same name.
    DuplicateFunction,
}

/// A refused batch: the first offending function, by position and name,
/// and for an unknown tag the tag itself.
pub struct GenerationError {
    pub kind: GenerationErrorKind,
    pub index: usize,
    pub function: String,
    pub tag: Option<String>,
}

/// The tags that the system's DPI declarations use: `USER32` for
/// `user32.dll` and `SHCORE` for `shcore.dll`.
pub fn windows_library_tags() -> (r: Vec<LibraryTag>)
    ensures
        r@.len() == 2,
        r@[0].tag@ == "USER32"@,
        r@[0].library@ == "user32.dll"@,
        r@[1].tag@ == "SHCORE"@,
        r@[1].library@ == "shcore.dll"@,
{
    let mut table: Vec<LibraryTag> = Vec::new();
    table.push(LibraryTag { tag: "USER32".to_owned(), library: "user32.dll".to_owned() });
    table.push(LibraryTag { tag: "SHCORE".to_owned(), library: "shcore.dll".to_owned() });
    table
}

/// The calling conventions a declaration batch may use.
pub open spec fn known_abi(abi: Seq<char>) -> bool {
    ||| abi == "C"@
    ||| abi == "cdecl"@
    ||| abi == "system"@
    ||| abi == "stdcall"@
    ||| abi == "fastcall"@
    ||| abi == "thiscall"@
    ||| abi == "vectorcall"@
    ||| abi == "win64"@
    ||| abi == "sysv64"@
    ||| abi == "aapcs"@
    ||| abi == "efiapi"@
}

/// The calling conventions that admit a variable argument list.
pub open spec fn variadic_abi(abi: Seq<char>) -> bool {
    abi == "C"@ || abi == "cdecl"@
}

/// Whether a signature can be expressed under the calling convention `abi`.
pub open spec fn signature_supported(abi: Seq<char>, variadic: bool) -> bool {
    known_abi(abi) && (!variadic || variadic_abi(abi))
}

/// The library that `tag` names in `table`; the first entry for a tag wins.
pub open spec fn library_of(table: Seq<LibraryTag>, tag: Seq<char>) -> Option<Seq<char>>
    decreases table.len(),
{
    if table.len() == 0 {
        None
    } else if table[0].tag@ == tag {
        Some(table[0].library@)
    } else {
        library_of(table.drop_first(), tag)
    }
}

/// What is wrong with the `i`-th function of a batch, if anything.
pub open spec fn declaration_fault(
    table: Seq<LibraryTag>,
    abi: Seq<char>,
    fs: Seq<FunctionDeclaration>,
    i: int,
) -> Option<GenerationErrorKind> {
    let f = fs[i];
    if f.libraries@.len() == 0 {
        Some(GenerationErrorKind::MissingLibrary)
    } else if f.libraries@.len() > 1 {
        Some(GenerationErrorKind::MultipleLibraries)
    } else if library_of(table, f.libraries@[0]@) is None {
        Some(GenerationErrorKind::UnknownLibrary)
    } else if !signature_supported(abi, f.signature.variadic) {
        Some(GenerationErrorKind::UnsupportedSignature)
    } else if exists|j: int| 0 <= j < i && fs[j].signature.name@ == f.signature.name@ {
        Some(GenerationErrorKind::DuplicateFunction)
    } else {
        None
    }
}

/// Whether every function of a batch is well declared.
pub open spec fn batch_valid(table: Seq<LibraryTag>, abi: Seq<char>, fs: Seq<FunctionDeclaration>) -> bool {
    forall|i: int| 0 <= i < fs.len() ==> #[trigger] declaration_fault(table, abi, fs, i) is None
}

/// A batch in which some function carries no library tag, or more than
/// one, is refused as a whole: `generate` produces nothing for it.
pub proof fn lemma_mistagged_batch_refused(
    table: Seq<LibraryTag>,
    abi: Seq<char>,
    fs: Seq<FunctionDeclaration>,
    i: int,
)
    requires
        0 <= i < fs.len(),
        fs[i].libraries@.len() != 1,
    ensures
        !batch_valid(table, abi, fs),
{
    assert(declaration_fault(table, abi, fs, i) is Some);
}

/// The library name that the `i`-th function of a valid batch is bound to.
pub open spec fn function_library(table: Seq<LibraryTag>, f: FunctionDeclaration) -> Seq<char> {
    library_of(table, f.libraries@[0]@)->Some_0
}

proof fn lemma_library_of_first(table: Seq<LibraryTag>, tag: Seq<char>, k: int)
    requires
        0 <= k <= table.len(),
        forall|j: int| 0 <= j < k ==> table[j].tag@ != tag,
    ensures
        k < table.len() && table[k].tag@ == tag ==> library_of(table, tag) == Some(table[k].library@),
        k == table.len() ==> library_of(table, tag) is None,
    decreases k,
{
    if k > 0 {
        let rest = table.drop_first();
        assert forall|j: int| 0 <= j < k - 1 implies rest[j].tag@ != tag by {
            assert(rest[j] == table[j + 1]);
        }
        lemma_library_of_first(rest, tag, k - 1);
        if k < table.len() {
            assert(rest[k - 1] == table[k]);
        }
    }
}

fn same_text(a: &String, b: &String) -> (r: bool)
    ensures
        r == (a@ == b@),
{
    *a == *b
}

fn text_is(a: &String, b: &str) -> (r: bool)
    ensures
        r == (a@ == b@),
{
    let t = b.to_owned();
    same_text(a, &t)
}

/// Whether `abi` names a calling convention that batches may use.
pub fn is_known_abi(abi: &String) -> (r: bool)
    ensures
        r == known_abi(abi@),
{
    text_is(abi, "C") || text_is(abi, "cdecl") || text_is(abi, "system") || text_is(abi, "stdcall")
        || text_is(abi, "fastcall") || text_is(abi, "thiscall") || text_is(abi, "vectorcall")
        || text_is(abi, "win64") || text_is(abi, "sysv64") || text_is(abi, "aapcs")
        || text_is(abi, "efiapi")
}

/// Whether a signature, variadic or not, can be expressed under `abi`.
pub fn is_signature_supported(abi: &String, variadic: bool) -> (r: bool)
    ensures
        r == signature_supported(abi@, variadic),
{
    is_known_abi(abi) && (!variadic || text_is(abi, "C") || text_is(abi, "cdecl"))
}

/// The position in `table` of the entry for `tag`, the first one if several.
pub fn find_tag(table: &Vec<LibraryTag>, tag: &String) -> (r: Option<usize>)
    ensures
        match r {
            Some(k) => k < table@.len() && table@[k as int].tag@ == tag@ && library_of(table@, tag@)
                == Some(table@[k as int].library@),
            None => library_of(table@, tag@) is None,
        },
{
    let mut k: usize = 0;
    while k < table.len()
        invariant
            0 <= k <= table@.len(),
            forall|j: int| 0 <= j < k ==> table@[j].tag@ != tag@,
        decreases table@.len() - k,
    {
        if same_text(&table[k].tag, tag) {
            proof {
                lemma_library_of_first(table@, tag@, k as int);
            }
            return Some(k);
        }
        k = k + 1;
    }
    proof {
        lemma_library_of_first(table@, tag@, k as int);
    }
    None
}

/// What is wrong with the `i`-th function of `fs`, if anything.
pub fn check_declaration(
    table: &Vec<LibraryTag>,
    abi: &String,
    fs: &Vec<FunctionDeclaration>,
    i: usize,
) -> (r: Option<GenerationErrorKind>)
    requires
        i < fs@.len(),
    ensures
        r == declaration_fault(table@, abi@, fs@, i as int),
{
    let f = &fs[i];
    if f.libraries.len() == 0 {
        return Some(GenerationErrorKind::MissingLibrary);
    }
    if f.libraries.len() > 1 {
        return Some(GenerationErrorKind::MultipleLibraries);
    }
    if find_tag(table, &f.libraries[0]).is_none() {
        return Some(GenerationErrorKind::UnknownLibrary);
    }
    if !is_signature_supported(abi, f.signature.variadic) {
        return Some(GenerationErrorKind::UnsupportedSignature);
    }
    let mut j: usize = 0;
    while j < i
        invariant
            i < fs@.len(),
            0 <= j <= i,
            fs@[i as int].libraries@.len() == 1,
            library_of(table@, fs@[i as int].libraries@[0]@) is Some,
            signature_supported(abi@, fs@[i as int].signature.variadic),
            forall|k: int| 0 <= k < j ==> fs@[k].signature.name@ != fs@[i as int].signature.name@,
        decreases i - j,
    {
        if same_text(&fs[j].signature.name, &fs[i].signature.name) {
            assert(fs@[j as int].signature.name@ == fs@[i as int].signature.name@);
            return Some(GenerationErrorKind::DuplicateFunction);
        }
        j = j + 1;
    }
    None
}

/// The position of `name` in `names`, if it is there.
fn position_of(names: &Vec<String>, name: &String) -> (r: Option<usize>)
    ensures
        match r {
            Some(k) => k < names@.len() && names@[k as int]@ == name@,
            None => forall|k: int| 0 <= k < names@.len() ==> names@[k]@ != name@,
        },
{
    let mut k: usize = 0;
    while k < names.len()
        invariant
            0 <= k <= names@.len(),
            forall|j: int| 0 <= j < k ==> names@[j]@ != name@,
        decreases names@.len() - k,
    {
        if same_text(&names[k], name) {
            return Some(k);
        }
        k = k + 1;
    }
    None
}

/// The signatures of a sequence of declarations.
pub open spec fn signatures(fs: Seq<FunctionDeclaration>) -> Seq<Signature> {
    fs.map_values(|f: FunctionDeclaration| f.signature)
}

/// Whether `g` is what the valid declarations `fs` expand to under `table`:
/// the signatures kept in order, one binding per function named after it and
/// wired to the library its tag names, and exactly one entry per library name
/// in use.
pub open spec fn expands_to(g: GeneratedBatch, table: Seq<LibraryTag>, fs: Seq<FunctionDeclaration>) -> bool {
    &&& g.declarations@ == signatures(fs)
    &&& g.bindings@.len() == fs.len()
    &&& forall|i: int|
        0 <= i < fs.len() ==> {
            &&& (#[trigger] g.bindings@[i]).name@ == fs[i].signature.name@
            &&& g.bindings@[i].library < g.libraries@.len()
            &&& g.libraries@[g.bindings@[i].library as int]@ == function_library(table, fs[i])
        }
    &&& forall|a: int, b: int|
        0 <= a < b < g.libraries@.len() ==> (#[trigger] g.libraries@[a])@ != (#[trigger] g.libraries@[b])@
    &&& forall|k: int| 0 <= k < g.libraries@.len() ==> #[trigger] library_used(g.bindings@, k)
}

/// Whether some binding is wired to the `k`-th library entry.
pub open spec fn library_used(bindings: Seq<GeneratedBinding>, k: int) -> bool {
    exists|i: int| 0 <= i < bindings.len() && bindings[i].library == k
}

/// In an expansion, functions whose tags name the same library are wired to
/// one and the same library entry.
pub proof fn lemma_shared_library_shares_entry(
    g: GeneratedBatch,
    table: Seq<LibraryTag>,
    fs: Seq<FunctionDeclaration>,
    i: int,
    j: int,
)
    requires
        expands_to(g, table, fs),
        0 <= i < fs.len(),
        0 <= j < fs.len(),
        function_library(table, fs[i]) == function_library(table, fs[j]),
    ensures
        g.bindings@[i].library == g.bindings@[j].library,
{
    let a = g.bindings@[i].library as int;
    let b = g.bindings@[j].library as int;
    assert(g.libraries@[a]@ == g.libraries@[b]@);
    if a < b {
        assert(g.libraries@[a]@ != g.libraries@[b]@);
    } else if b < a {
        assert(g.libraries@[b]@ != g.libraries@[a]@);
    }
}

/// Expands a batch of declarations. Every function must carry exactly one
/// tag that `table` knows, have a signature that the batch's calling
/// convention can express, and a name not used earlier in the batch;
/// otherwise generation fails on the first offending function and nothing
/// is produced. Functions whose tags name the same library share one
/// library entry.
pub fn generate(batch: DeclarationBatch, table: &Vec<LibraryTag>) -> (r: Result<
    GeneratedBatch,
    GenerationError,
>)
    ensures
        r is Ok <==> batch_valid(table@, batch.abi@, batch.functions@),
        r matches Ok(g) ==> g.abi@ == batch.abi@ && expands_to(g, table@, batch.functions@),
        r matches Err(e) ==> {
            &&& e.index < batch.functions@.len()
            &&& declaration_fault(table@, batch.abi@, batch.functions@, e.index as int) == Some(
                e.kind,
            )
            &&& forall|j: int|
                0 <= j < e.index ==> #[trigger] declaration_fault(
                    table@,
                    batch.abi@,
                    batch.functions@,
                    j,
                ) is None
            &&& e.function@ == batch.functions@[e.index as int].signature.name@
            &&& (e.kind == GenerationErrorKind::UnknownLibrary) == (e.tag is Some)
            &&& e.tag matches Some(t) ==> t@ == batch.functions@[e.index as int].libraries@[0]@
        },
{
    let DeclarationBatch { abi, functions } = batch;
    let ghost fs = functions@;
    let n = functions.len();
    let mut libraries: Vec<String> = Vec::new();
    let mut bindings: Vec<GeneratedBinding> = Vec::new();
    let mut i: usize = 0;
    while i < n
        invariant
            n == functions@.len(),
            fs == functions@,
            fs == batch.functions@,
            abi@ == batch.abi@,
            0 <= i <= n,
            forall|j: int| 0 <= j < i ==> #[trigger] declaration_fault(table@, abi@, fs, j) is None,
            bindings@.len() == i,
            forall|j: int|
                0 <= j < i ==> {
                    &&& (#[trigger] bindings@[j]).name@ == fs[j].signature.name@
                    &&& bindings@[j].library < libraries@.len()
                    &&& libraries@[bindings@[j].library as int]@ == function_library(table@, fs[j])
                },
            forall|a: int, b: int|
                0 <= a < b < libraries@.len() ==> (#[trigger] libraries@[a])@ != (#[trigger] libraries@[b])@,
            forall|k: int| 0 <= k < libraries@.len() ==> #[trigger] library_used(bindings@, k),
        decreases n - i,
    {
        match check_declaration(table, &abi, &functions, i) {
            Some(kind) => {
                assert(declaration_fault(table@, abi@, fs, i as int) == Some(kind));
                assert(!(declaration_fault(table@, abi@, fs, i as int) is None));
                let function = functions[i].signature.name.clone();
                let tag = match kind {
                    GenerationErrorKind::UnknownLibrary => Some(functions[i].libraries[0].clone()),
                    _ => None,
                };
                return Err(GenerationError { kind, index: i, function, tag });
            },
            None => {},
        }
        let k = match find_tag(table, &functions[i].libraries[0]) {
            Some(k) => k,
            None => {
                return Err(GenerationError {
                    kind: GenerationErrorKind::UnknownLibrary,
                    index: i,
                    function: functions[i].signature.name.clone(),
                    tag: Some(functions[i].libraries[0].clone()),
                });
            },
        };
        let library = match position_of(&libraries, &table[k].library) {
            Some(p) => p,
            None => {
                let p = libraries.len();
                let ghost prior = libraries@;
                libraries.push(table[k].library.clone());
                proof {
                    assert(bindings@.len() == i);
                    assert forall|q: int| 0 <= q < prior.len() implies #[trigger] library_used(bindings@, q) by {
                        assert(libraries@[q] == prior[q]);
                    }
                }
                p
            },
        };
        let ghost before = bindings@;
        bindings.push(GeneratedBinding { name: functions[i].signature.name.clone(), library });
        proof {
            assert(bindings@[i as int].library == library);
            assert forall|q: int| 0 <= q < libraries@.len() implies #[trigger] library_used(bindings@, q) by {
                if q == library {
                    assert(bindings@[i as int].library == q);
                } else {
                    assert(library_used(before, q));
                    let j = choose|j: int| 0 <= j < before.len() && before[j].library == q;
                    assert(bindings@[j] == before[j]);
                }
            }
        }
        i = i + 1;
    }
    let mut rest = functions;
    let mut declarations: Vec<Signature> = Vec::new();
    while rest.len() > 0
        invariant
            signatures(fs) == declarations@ + signatures(rest@),
        decreases rest@.len(),
    {
        let ghost rest0 = rest@;
        let ghost decl0 = declarations@;
        let f = rest.remove(0);
        declarations.push(f.signature);
        assert(signatures(fs) == declarations@ + signatures(rest@)) by {
            assert(signatures(rest0) =~= seq![f.signature] + signatures(rest@));
            assert(declarations@ =~= decl0.push(f.signature));
            assert(decl0 + signatures(rest0) =~= declarations@ + signatures(rest@));
        }
    }
    assert(declarations@ =~= signatures(fs));
    Ok(GeneratedBatch { abi, declarations, libraries, bindings })
}

} // verus!
