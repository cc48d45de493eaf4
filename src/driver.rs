//! The plugin driver: a request in, generated files or one error out.
use vstd::prelude::*;
use crate::descriptor::{Pool, Request};
use crate::model::{
    build_file_model, classes_spec, enums_spec, map_registry, registry_spec, CompileError, MapEntry,
};
use crate::names::{build_table, message_qname, package_of, SymbolTable};
use crate::render::{file_text, render_file};

verus! {

pub struct GeneratedFile {
    pub name: String,
    pub content: String,
}

/// What a plugin answers: generated files, or one error that replaces them.
pub struct Response {
    pub error: Option<String>,
    pub supported_features: u64,
    pub files: Vec<GeneratedFile>,
}

/// Relies on protobuf's `code_generator_response::Feature`: the
/// `FEATURE_PROTO3_OPTIONAL` flag, whose value is 1.
#[verifier::external_body]
fn proto3_optional_feature() -> (r: u64)
    ensures
        r == 1,
{
    protobuf::plugin::code_generator_response::Feature::FEATURE_PROTO3_OPTIONAL as u64
}

/// The package path with each `.` turned into `/`.
pub open spec fn package_dir(package: Seq<char>) -> Seq<char> {
    package.map_values(|c: char| if c == '.' { '/' } else { c })
}

/// The path of the module generated for a package.
pub open spec fn output_path(package: Seq<char>) -> Seq<char> {
    if package.len() == 0 {
        "__init__.py"@
    } else {
        package_dir(package) + "/__init__.py"@
    }
}

/// The first of the first `n` files with the given path.
pub open spec fn first_file(pool: &Pool, path: Seq<char>, n: nat) -> Option<usize>
    decreases n,
{
    if n == 0 {
        None
    } else {
        match first_file(pool, path, (n - 1) as nat) {
            Some(f) => Some(f),
            None => if pool.files@[n - 1].path@ == path {
                Some((n - 1) as usize)
            } else {
                None
            },
        }
    }
}

/// The path and text generated for file `f`, or the error that stops it.
pub open spec fn file_output_spec(pool: &Pool, reg: Seq<MapEntry>, f: usize) -> Result<
    (Seq<char>, Seq<char>),
    CompileError,
> {
    match classes_spec(pool, reg, f, pool.messages@.len() as nat) {
        Err(e) => Err(e),
        Ok(cs) => Ok(
            (
                output_path(package_of(pool, f)),
                file_text(pool, cs, enums_spec(pool, f, pool.enums@.len() as nat)),
            ),
        ),
    }
}

/// The outputs of the first `n` files to generate, or the first error.
pub open spec fn outputs_spec(req: &Request, reg: Seq<MapEntry>, n: nat) -> Result<
    Seq<(Seq<char>, Seq<char>)>,
    CompileError,
>
    decreases n,
{
    if n == 0 {
        Ok(Seq::empty())
    } else {
        match outputs_spec(req, reg, (n - 1) as nat) {
            Err(e) => Err(e),
            Ok(s) => match first_file(
                &req.pool,
                req.file_to_generate@[n - 1]@,
                req.pool.files@.len() as nat,
            ) {
                None => Err(CompileError::UnknownFile { index: (n - 1) as usize }),
                Some(f) => match file_output_spec(&req.pool, reg, f) {
                    Err(e) => Err(e),
                    Ok(o) => Ok(s.push(o)),
                },
            },
        }
    }
}

/// The whole compilation: every requested file, or the first error.
pub open spec fn compile_spec(req: &Request) -> Result<Seq<(Seq<char>, Seq<char>)>, CompileError> {
    if req.file_to_generate@.len() == 0 && req.pool.files@.len() == 0 {
        Err(CompileError::EmptyRequest)
    } else if !req.pool.well_formed() {
        Err(CompileError::MalformedPool)
    } else {
        match registry_spec(&req.pool, req.pool.messages@.len() as nat) {
            Err(e) => Err(e),
            Ok(reg) => outputs_spec(req, reg, req.file_to_generate@.len() as nat),
        }
    }
}

pub open spec fn files_view(files: Seq<GeneratedFile>) -> Seq<(Seq<char>, Seq<char>)> {
    files.map_values(|g: GeneratedFile| (g.name@, g.content@))
}

proof fn lemma_outputs_err(req: &Request, reg: Seq<MapEntry>, n: nat, k: nat)
    requires
        n <= k,
        outputs_spec(req, reg, n) is Err,
    ensures
        outputs_spec(req, reg, k) == outputs_spec(req, reg, n),
    decreases k - n,
{
    if n < k {
        lemma_outputs_err(req, reg, n, (k - 1) as nat);
    }
}

/// The module path of a package.
pub fn output_name(package: &String) -> (r: String)
    ensures
        r@ == output_path(package@),
{
    proof {
        reveal_strlit("__init__.py");
        reveal_strlit("/__init__.py");
        reveal_strlit("/");
    }
    let p = package.as_str();
    let n = p.unicode_len();
    if n == 0 {
        return String::from_str("__init__.py");
    }
    let mut s = String::new();
    let mut k: usize = 0;
    while k < n
        invariant
            n == p@.len(),
            p@ == package@,
            k <= n,
            s@ == package_dir(p@.take(k as int)),
        decreases n - k,
    {
        let c = p.get_char(k);
        if c == '.' {
            s.append("/");
            proof {
                reveal_strlit("/");
            }
            assert("/"@ =~= seq!['/']);
        } else {
            let one = p.substring_char(k, k + 1);
            assert(one@ =~= seq![c]);
            s.append(one);
        }
        assert(package_dir(p@.take(k + 1)) =~= package_dir(p@.take(k as int)).push(
            if c == '.' {
                '/'
            } else {
                c
            },
        ));
        k = k + 1;
    }
    assert(p@.take(n as int) =~= p@);
    s.append("/__init__.py");
    s
}

/// The index of the first file with path `path`.
pub fn find_file(pool: &Pool, path: &String) -> (r: Option<usize>)
    ensures
        r == first_file(pool, path@, pool.files@.len() as nat),
{
    let mut k: usize = 0;
    while k < pool.files.len()
        invariant
            k <= pool.files@.len(),
            first_file(pool, path@, k as nat) is None,
        decreases pool.files@.len() - k,
    {
        if pool.files[k].path == *path {
            proof {
                lemma_first_file_found(pool, path@, (k + 1) as nat, pool.files@.len() as nat);
            }
            return Some(k);
        }
        k = k + 1;
    }
    None
}

proof fn lemma_first_file_bound(pool: &Pool, path: Seq<char>, n: nat)
    ensures
        first_file(pool, path, n) matches Some(f) ==> f < n,
    decreases n,
{
    if n > 0 {
        lemma_first_file_bound(pool, path, (n - 1) as nat);
    }
}

proof fn lemma_first_file_found(pool: &Pool, path: Seq<char>, n: nat, k: nat)
    requires
        n <= k,
        first_file(pool, path, n) is Some,
    ensures
        first_file(pool, path, k) == first_file(pool, path, n),
    decreases k - n,
{
    if n < k {
        lemma_first_file_found(pool, path, n, (k - 1) as nat);
    }
}

/// Compiles every requested file; the first error replaces all output.
pub fn compile(req: &Request) -> (r: Result<Vec<GeneratedFile>, CompileError>)
    ensures
        match r {
            Ok(files) => compile_spec(req) == Ok::<Seq<(Seq<char>, Seq<char>)>, CompileError>(
                files_view(files@),
            ),
            Err(e) => compile_spec(req) == Err::<Seq<(Seq<char>, Seq<char>)>, CompileError>(e),
        },
{
    if req.file_to_generate.len() == 0 && req.pool.files.len() == 0 {
        return Err(CompileError::EmptyRequest);
    }
    let pool = &req.pool;
    if !pool.check() {
        return Err(CompileError::MalformedPool);
    }
    let table = build_table(pool);
    let reg = map_registry(pool, &table)?;
    let mut files: Vec<GeneratedFile> = Vec::new();
    assert(files_view(files@) =~= Seq::empty());
    let mut i: usize = 0;
    while i < req.file_to_generate.len()
        invariant
            pool == &req.pool,
            pool.well_formed(),
            !(req.file_to_generate@.len() == 0 && req.pool.files@.len() == 0),
            table.of(pool),
            registry_spec(pool, pool.messages@.len() as nat) == Ok::<Seq<MapEntry>, CompileError>(reg@),
            i <= req.file_to_generate@.len(),
            outputs_spec(req, reg@, i as nat) == Ok::<Seq<(Seq<char>, Seq<char>)>, CompileError>(
                files_view(files@),
            ),
        decreases req.file_to_generate@.len() - i,
    {
        let f = match find_file(pool, &req.file_to_generate[i]) {
            Some(f) => f,
            None => {
                assert(outputs_spec(req, reg@, (i + 1) as nat) is Err);
                proof {
                    lemma_outputs_err(req, reg@, (i + 1) as nat, req.file_to_generate@.len() as nat);
                }
                return Err(CompileError::UnknownFile { index: i });
            },
        };
        proof {
            lemma_first_file_bound(pool, req.file_to_generate@[i as int]@, pool.files@.len() as nat);
        }
        let md = match build_file_model(pool, &table, &reg, f) {
            Ok(md) => md,
            Err(e) => {
                assert(outputs_spec(req, reg@, (i + 1) as nat) == Err::<
                    Seq<(Seq<char>, Seq<char>)>,
                    CompileError,
                >(e));
                proof {
                    lemma_outputs_err(req, reg@, (i + 1) as nat, req.file_to_generate@.len() as nat);
                }
                return Err(e);
            },
        };
        let content = render_file(pool, &table, &reg, &md);
        let name = output_name(&pool.files[f].package);
        let ghost before = files@;
        files.push(GeneratedFile { name, content });
        proof {
            assert(files_view(files@) =~= files_view(before).push((name@, content@)));
        }
        i = i + 1;
    }
    Ok(files)
}

/// The dotted reference of field `f` of message `m`, if it exists.
pub open spec fn field_ref(pool: &Pool, m: usize, f: usize) -> Seq<char> {
    if m < pool.messages@.len() && f < pool.messages@[m as int].fields@.len() {
        pool.messages@[m as int].fields@[f as int].type_ref@
    } else {
        Seq::empty()
    }
}

/// The name of field `f` of message `m`, if it exists.
pub open spec fn field_label(pool: &Pool, m: usize, f: usize) -> Seq<char> {
    if m < pool.messages@.len() && f < pool.messages@[m as int].fields@.len() {
        pool.messages@[m as int].fields@[f as int].name@
    } else {
        Seq::empty()
    }
}

pub open spec fn requested(req: &Request, i: usize) -> Seq<char> {
    if i < req.file_to_generate@.len() {
        req.file_to_generate@[i as int]@
    } else {
        Seq::empty()
    }
}

/// The message that a response carries for an error.
pub open spec fn error_text(req: &Request, e: CompileError) -> Seq<char> {
    match e {
        CompileError::UnresolvedReference { message, field } => "Unresolved type reference: "@
            + field_ref(&req.pool, message, field),
        CompileError::UnsupportedFeature { message, field } => "Group fields are not supported: "@
            + field_label(&req.pool, message, field),
        CompileError::MalformedMapEntry { message } => "Malformed map entry: "@ + if req.pool.well_formed() {
            message_qname(&req.pool, message as int)
        } else {
            Seq::empty()
        },
        CompileError::MalformedPool => "Malformed descriptor set"@,
        CompileError::UnknownFile { index } => "File to generate is not in the request: "@
            + requested(req, index),
        CompileError::EmptyRequest => "No input files to generate"@,
    }
}

fn text_or_empty(s: Option<&String>) -> (r: String)
    ensures
        r@ == match s {
            Some(t) => t@,
            None => Seq::<char>::empty(),
        },
{
    match s {
        Some(t) => t.clone(),
        None => String::new(),
    }
}

/// The message of an error of a compilation of `req`.
pub fn describe(req: &Request, e: CompileError) -> (r: String)
    ensures
        r@ == error_text(req, e),
{
    proof {
        reveal_strlit("Unresolved type reference: ");
        reveal_strlit("Group fields are not supported: ");
        reveal_strlit("Malformed map entry: ");
        reveal_strlit("Malformed descriptor set");
        reveal_strlit("File to generate is not in the request: ");
        reveal_strlit("No input files to generate");
    }
    let pool = &req.pool;
    match e {
        CompileError::UnresolvedReference { message, field } => {
            let mut s = String::from_str("Unresolved type reference: ");
            let t = if message < pool.messages.len() && field < pool.messages[message].fields.len() {
                text_or_empty(Some(&pool.messages[message].fields[field].type_ref))
            } else {
                text_or_empty(None)
            };
            s.append(t.as_str());
            s
        },
        CompileError::UnsupportedFeature { message, field } => {
            let mut s = String::from_str("Group fields are not supported: ");
            let t = if message < pool.messages.len() && field < pool.messages[message].fields.len() {
                text_or_empty(Some(&pool.messages[message].fields[field].name))
            } else {
                text_or_empty(None)
            };
            s.append(t.as_str());
            s
        },
        CompileError::MalformedMapEntry { message } => {
            let mut s = String::from_str("Malformed map entry: ");
            let t = if pool.check() {
                let table = build_table(pool);
                if message < table.messages.len() {
                    text_or_empty(Some(&table.messages[message]))
                } else {
                    text_or_empty(None)
                }
            } else {
                text_or_empty(None)
            };
            s.append(t.as_str());
            s
        },
        CompileError::MalformedPool => String::from_str("Malformed descriptor set"),
        CompileError::UnknownFile { index } => {
            let mut s = String::from_str("File to generate is not in the request: ");
            let t = if index < req.file_to_generate.len() {
                text_or_empty(Some(&req.file_to_generate[index]))
            } else {
                text_or_empty(None)
            };
            s.append(t.as_str());
            s
        },
        CompileError::EmptyRequest => String::from_str("No input files to generate"),
    }
}

/// What a response shows: its error text, its feature flags and its files.
pub open spec fn response_view(r: Response) -> (Option<Seq<char>>, u64, Seq<(Seq<char>, Seq<char>)>) {
    (
        match r.error {
            Some(t) => Some(t@),
            None => None,
        },
        r.supported_features,
        files_view(r.files@),
    )
}

/// The response owed to `req`: an empty request gets its error and no
/// flags; otherwise the proto3-optional flag is set, with the files or the
/// first error.
pub open spec fn expected_response(req: &Request) -> (Option<Seq<char>>, u64, Seq<(Seq<char>, Seq<char>)>) {
    match compile_spec(req) {
        Err(CompileError::EmptyRequest) => (Some("No input files to generate"@), 0, Seq::empty()),
        Err(e) => (Some(error_text(req, e)), 1, Seq::empty()),
        Ok(files) => (None, 1, files),
    }
}

/// Answers a request.
pub fn generate_code(req: &Request) -> (r: Response)
    ensures
        response_view(r) == expected_response(req),
{
    let r = match compile(req) {
        Ok(files) => Response { error: None, supported_features: proto3_optional_feature(), files },
        Err(CompileError::EmptyRequest) => Response {
            error: Some(describe(req, CompileError::EmptyRequest)),
            supported_features: 0,
            files: Vec::new(),
        },
        Err(e) => Response {
            error: Some(describe(req, e)),
            supported_features: proto3_optional_feature(),
            files: Vec::new(),
        },
    };
    assert(files_view(Seq::<GeneratedFile>::empty()) =~= Seq::empty());
    r
}

} // verus!
