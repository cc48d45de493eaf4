//! The model builder: resolved classes and enums for one file.
use vstd::prelude::*;
use crate::descriptor::{Label, Pool, WireKind};
use crate::names::{enum_qname, message_qname, resolve, resolve_spec, Symbol, SymbolTable};
use crate::scalar::{scalar_of, scalar_type, Scalar};

verus! {

/// Why a compilation failed. Indices point into the pool's arenas, or into
/// the request's list of files to generate.
#[derive(Clone, Copy, Debug, PartialEq, Eq, Structural)]
pub enum CompileError {
    /// A field's type reference names no symbol, or several.
    UnresolvedReference { message: usize, field: usize },
    /// A group-typed field.
    UnsupportedFeature { message: usize, field: usize },
    /// A map entry without exactly the two fields `key` and `value`.
    MalformedMapEntry { message: usize },
    /// A link of the pool that points out of range or forwards.
    MalformedPool,
    /// A file to generate that the pool does not hold.
    UnknownFile { index: usize },
    /// Nothing to generate and no descriptors.
    EmptyRequest,
}

/// The type of one value: a scalar, or a reference to a message or enum.
#[derive(Clone, Copy, Debug, PartialEq, Eq, Structural)]
pub enum ValueType {
    Scalar(Scalar),
    Message(usize),
    Enum(usize),
}

/// The resolved type of a field.
#[derive(Clone, Copy, Debug, PartialEq, Eq, Structural)]
pub enum FieldType {
    /// A non-null value with the target's default.
    Single(ValueType),
    /// A presence-tracked (nullable) value.
    Optional(ValueType),
    /// A sequence of values.
    Repeated(ValueType),
    /// A map from keys to values.
    Dict(ValueType, ValueType),
}

pub type MapEntry = Option<(ValueType, ValueType)>;

/// The value type of field `f` of message `m`, before map recognition.
pub open spec fn value_type_spec(pool: &Pool, m: usize, f: usize) -> Result<ValueType, CompileError> {
    let fd = pool.messages@[m as int].fields@[f as int];
    match fd.kind {
        WireKind::Group => Err(CompileError::UnsupportedFeature { message: m, field: f }),
        WireKind::Message | WireKind::Enum => match resolve_spec(pool, fd.type_ref@) {
            Some(Symbol::Message(j)) => Ok(ValueType::Message(j)),
            Some(Symbol::Enum(j)) => Ok(ValueType::Enum(j)),
            None => Err(CompileError::UnresolvedReference { message: m, field: f }),
        },
        _ => Ok(ValueType::Scalar(scalar_of(fd.kind).unwrap())),
    }
}

/// A map entry has exactly the two fields `key` and `value`.
pub open spec fn entry_shape_ok(pool: &Pool, j: usize) -> bool {
    let fs = pool.messages@[j as int].fields@;
    fs.len() == 2 && fs[0].name@ == "key"@ && fs[1].name@ == "value"@
}

/// What message `j` contributes to the map-entry registry.
pub open spec fn entry_spec(pool: &Pool, j: usize) -> Result<MapEntry, CompileError> {
    if !pool.messages@[j as int].map_entry {
        Ok(None)
    } else if !entry_shape_ok(pool, j) {
        Err(CompileError::MalformedMapEntry { message: j })
    } else {
        match value_type_spec(pool, j, 0) {
            Err(e) => Err(e),
            Ok(k) => match value_type_spec(pool, j, 1) {
                Err(e) => Err(e),
                Ok(v) => Ok(Some((k, v))),
            },
        }
    }
}

/// The registry over the first `n` messages: the first error, or one entry
/// per message.
pub open spec fn registry_spec(pool: &Pool, n: nat) -> Result<Seq<MapEntry>, CompileError>
    decreases n,
{
    if n == 0 {
        Ok(Seq::empty())
    } else {
        match registry_spec(pool, (n - 1) as nat) {
            Err(e) => Err(e),
            Ok(s) => match entry_spec(pool, (n - 1) as usize) {
                Err(e) => Err(e),
                Ok(x) => Ok(s.push(x)),
            },
        }
    }
}

/// The resolved type of field `f` of message `m` under a registry.
pub open spec fn field_type_spec(pool: &Pool, reg: Seq<MapEntry>, m: usize, f: usize) -> Result<
    FieldType,
    CompileError,
> {
    let fd = pool.messages@[m as int].fields@[f as int];
    match value_type_spec(pool, m, f) {
        Err(e) => Err(e),
        Ok(v) => match v {
            ValueType::Message(j) if j < reg.len() && reg[j as int] is Some => {
                let (k, w) = reg[j as int].unwrap();
                Ok(FieldType::Dict(k, w))
            },
            _ => if fd.label == Label::Repeated {
                Ok(FieldType::Repeated(v))
            } else if fd.proto3_optional {
                Ok(FieldType::Optional(v))
            } else {
                Ok(FieldType::Single(v))
            },
        },
    }
}

/// The types of the first `n` fields of message `m`, or the first error.
pub open spec fn fields_spec(pool: &Pool, reg: Seq<MapEntry>, m: usize, n: nat) -> Result<
    Seq<FieldType>,
    CompileError,
>
    decreases n,
{
    if n == 0 {
        Ok(Seq::empty())
    } else {
        match fields_spec(pool, reg, m, (n - 1) as nat) {
            Err(e) => Err(e),
            Ok(s) => match field_type_spec(pool, reg, m, (n - 1) as usize) {
                Err(e) => Err(e),
                Ok(t) => Ok(s.push(t)),
            },
        }
    }
}

proof fn lemma_registry_err(pool: &Pool, n: nat, m: nat)
    requires
        n <= m,
        registry_spec(pool, n) is Err,
    ensures
        registry_spec(pool, m) == registry_spec(pool, n),
    decreases m - n,
{
    if n < m {
        lemma_registry_err(pool, n, (m - 1) as nat);
    }
}

pub open spec fn valid_field(pool: &Pool, m: usize, f: usize) -> bool {
    m < pool.messages@.len() && f < pool.messages@[m as int].fields@.len()
}

/// The value type of field `f` of message `m`.
pub fn value_type(pool: &Pool, table: &SymbolTable, m: usize, f: usize) -> (r: Result<
    ValueType,
    CompileError,
>)
    requires
        table.of(pool),
        valid_field(pool, m, f),
    ensures
        r == value_type_spec(pool, m, f),
{
    let fd = &pool.messages[m].fields[f];
    match fd.kind {
        WireKind::Group => Err(CompileError::UnsupportedFeature { message: m, field: f }),
        WireKind::Message | WireKind::Enum => match resolve(pool, table, &fd.type_ref) {
            Some(Symbol::Message(j)) => Ok(ValueType::Message(j)),
            Some(Symbol::Enum(j)) => Ok(ValueType::Enum(j)),
            None => Err(CompileError::UnresolvedReference { message: m, field: f }),
        },
        _ => match scalar_type(fd.kind) {
            Some(s) => Ok(ValueType::Scalar(s)),
            None => Err(CompileError::UnsupportedFeature { message: m, field: f }),
        },
    }
}

/// What message `j` contributes to the map-entry registry.
pub fn map_entry_type(pool: &Pool, table: &SymbolTable, j: usize) -> (r: Result<
    MapEntry,
    CompileError,
>)
    requires
        table.of(pool),
        j < pool.messages@.len(),
    ensures
        r == entry_spec(pool, j),
{
    let msg = &pool.messages[j];
    if !msg.map_entry {
        return Ok(None);
    }
    proof {
        reveal_strlit("key");
        reveal_strlit("value");
    }
    let key_name = String::from_str("key");
    let value_name = String::from_str("value");
    if msg.fields.len() != 2 || msg.fields[0].name != key_name || msg.fields[1].name != value_name {
        return Err(CompileError::MalformedMapEntry { message: j });
    }
    let k = value_type(pool, table, j, 0)?;
    let v = value_type(pool, table, j, 1)?;
    Ok(Some((k, v)))
}

/// Recognises every map entry of the pool, before any class is built.
pub fn map_registry(pool: &Pool, table: &SymbolTable) -> (r: Result<Vec<MapEntry>, CompileError>)
    requires
        table.of(pool),
    ensures
        match r {
            Ok(v) => registry_spec(pool, pool.messages@.len() as nat) == Ok::<
                Seq<MapEntry>,
                CompileError,
            >(v@),
            Err(e) => registry_spec(pool, pool.messages@.len() as nat) == Err::<
                Seq<MapEntry>,
                CompileError,
            >(e),
        },
{
    let mut reg: Vec<MapEntry> = Vec::new();
    let mut j: usize = 0;
    while j < pool.messages.len()
        invariant
            table.of(pool),
            j <= pool.messages@.len(),
            registry_spec(pool, j as nat) == Ok::<Seq<MapEntry>, CompileError>(reg@),
        decreases pool.messages@.len() - j,
    {
        let x = map_entry_type(pool, table, j);
        match x {
            Err(e) => {
                assert(registry_spec(pool, (j + 1) as nat) == Err::<Seq<MapEntry>, CompileError>(e));
                proof {
                    lemma_registry_err(pool, (j + 1) as nat, pool.messages@.len() as nat);
                }
                return Err(e);
            },
            Ok(x) => {
                reg.push(x);
            },
        }
        j = j + 1;
    }
    Ok(reg)
}

proof fn lemma_fields_err(pool: &Pool, reg: Seq<MapEntry>, m: usize, n: nat, k: nat)
    requires
        n <= k,
        fields_spec(pool, reg, m, n) is Err,
    ensures
        fields_spec(pool, reg, m, k) == fields_spec(pool, reg, m, n),
    decreases k - n,
{
    if n < k {
        lemma_fields_err(pool, reg, m, n, (k - 1) as nat);
    }
}

/// The resolved type of field `f` of message `m`.
pub fn field_type(pool: &Pool, table: &SymbolTable, reg: &Vec<MapEntry>, m: usize, f: usize) -> (r:
    Result<FieldType, CompileError>)
    requires
        table.of(pool),
        valid_field(pool, m, f),
    ensures
        r == field_type_spec(pool, reg@, m, f),
{
    let fd = &pool.messages[m].fields[f];
    let v = value_type(pool, table, m, f)?;
    if let ValueType::Message(j) = v {
        if j < reg.len() {
            if let Some((k, w)) = reg[j] {
                return Ok(FieldType::Dict(k, w));
            }
        }
    }
    if fd.label == Label::Repeated {
        Ok(FieldType::Repeated(v))
    } else if fd.proto3_optional {
        Ok(FieldType::Optional(v))
    } else {
        Ok(FieldType::Single(v))
    }
}

pub struct FieldNode {
    pub name: String,
    pub ty: FieldType,
}

/// A class emitted for a message that is not a map entry.
pub struct ClassNode {
    /// The fully-qualified name.
    pub name: String,
    pub message: usize,
    pub fields: Vec<FieldNode>,
}

pub struct VariantNode {
    pub name: String,
    pub number: i32,
}

pub struct EnumNode {
    /// The fully-qualified name.
    pub name: String,
    pub decl: usize,
    pub variants: Vec<VariantNode>,
}

/// Field nodes of message `m` with the given types, in declaration order.
pub open spec fn fields_are(pool: &Pool, nodes: Seq<FieldNode>, m: usize, tys: Seq<FieldType>) -> bool {
    &&& nodes.len() == tys.len()
    &&& nodes.len() <= pool.messages@[m as int].fields@.len()
    &&& forall|k: int|
        0 <= k < nodes.len() ==> (#[trigger] nodes[k]).name@ == pool.messages@[m as int].fields@[k].name@
            && nodes[k].ty == tys[k]
}

pub open spec fn class_is(pool: &Pool, c: ClassNode, m: usize, tys: Seq<FieldType>) -> bool {
    &&& c.message == m
    &&& m < pool.messages@.len()
    &&& c.name@ == message_qname(pool, m as int)
    &&& tys.len() == pool.messages@[m as int].fields@.len()
    &&& fields_are(pool, c.fields@, m, tys)
}

/// The class of message `m`: every field resolved, or the first error.
pub fn build_class(pool: &Pool, table: &SymbolTable, reg: &Vec<MapEntry>, m: usize) -> (r: Result<
    ClassNode,
    CompileError,
>)
    requires
        table.of(pool),
        m < pool.messages@.len(),
    ensures
        match r {
            Ok(c) => fields_spec(pool, reg@, m, pool.messages@[m as int].fields@.len() as nat) is Ok
                && class_is(
                pool,
                c,
                m,
                fields_spec(pool, reg@, m, pool.messages@[m as int].fields@.len() as nat)->Ok_0,
            ),
            Err(e) => fields_spec(pool, reg@, m, pool.messages@[m as int].fields@.len() as nat)
                == Err::<Seq<FieldType>, CompileError>(e),
        },
{
    let msg = &pool.messages[m];
    let mut nodes: Vec<FieldNode> = Vec::new();
    let ghost mut tys: Seq<FieldType> = Seq::empty();
    let mut f: usize = 0;
    while f < msg.fields.len()
        invariant
            table.of(pool),
            m < pool.messages@.len(),
            msg == pool.messages@[m as int],
            f <= msg.fields@.len(),
            fields_spec(pool, reg@, m, f as nat) == Ok::<Seq<FieldType>, CompileError>(tys),
            fields_are(pool, nodes@, m, tys),
            nodes@.len() == f,
        decreases msg.fields@.len() - f,
    {
        match field_type(pool, table, reg, m, f) {
            Err(e) => {
                proof {
                    lemma_fields_err(pool, reg@, m, (f + 1) as nat, msg.fields@.len() as nat);
                }
                return Err(e);
            },
            Ok(t) => {
                nodes.push(FieldNode { name: msg.fields[f].name.clone(), ty: t });
                proof {
                    tys = tys.push(t);
                }
            },
        }
        f = f + 1;
    }
    Ok(ClassNode { name: table.messages[m].clone(), message: m, fields: nodes })
}

/// The enum node of declaration `j`: every variant kept, in order, with its
/// declared number unchanged (aliases included).
pub open spec fn enum_is(pool: &Pool, e: EnumNode, j: usize) -> bool {
    let vals = pool.enums@[j as int].values@;
    &&& e.decl == j
    &&& j < pool.enums@.len()
    &&& e.name@ == enum_qname(pool, j as int)
    &&& e.variants@.len() == vals.len()
    &&& forall|k: int|
        0 <= k < vals.len() ==> (#[trigger] e.variants@[k]).name@ == vals[k].name@
            && e.variants@[k].number == vals[k].number
}

pub fn build_enum(pool: &Pool, table: &SymbolTable, j: usize) -> (e: EnumNode)
    requires
        table.of(pool),
        j < pool.enums@.len(),
    ensures
        enum_is(pool, e, j),
{
    let decl = &pool.enums[j];
    let mut variants: Vec<VariantNode> = Vec::new();
    let mut k: usize = 0;
    while k < decl.values.len()
        invariant
            decl == pool.enums@[j as int],
            k <= decl.values@.len(),
            variants@.len() == k,
            forall|x: int|
                0 <= x < k ==> (#[trigger] variants@[x]).name@ == decl.values@[x].name@
                    && variants@[x].number == decl.values@[x].number,
        decreases decl.values@.len() - k,
    {
        let v = &decl.values[k];
        variants.push(VariantNode { name: v.name.clone(), number: v.number });
        k = k + 1;
    }
    EnumNode { name: table.enums[j].clone(), decl: j, variants }
}

/// A message that file `f` emits as a class.
pub open spec fn emits_class(pool: &Pool, f: usize, m: int) -> bool {
    pool.messages@[m].file == f && !pool.messages@[m].map_entry
}

/// The classes of file `f` among the first `n` messages, in declaration
/// order: each message with its field types, or the first error.
pub open spec fn classes_spec(pool: &Pool, reg: Seq<MapEntry>, f: usize, n: nat) -> Result<
    Seq<(usize, Seq<FieldType>)>,
    CompileError,
>
    decreases n,
{
    if n == 0 {
        Ok(Seq::empty())
    } else {
        let m = (n - 1) as usize;
        match classes_spec(pool, reg, f, (n - 1) as nat) {
            Err(e) => Err(e),
            Ok(s) => if !emits_class(pool, f, m as int) {
                Ok(s)
            } else {
                match fields_spec(pool, reg, m, pool.messages@[m as int].fields@.len() as nat) {
                    Err(e) => Err(e),
                    Ok(tys) => Ok(s.push((m, tys))),
                }
            },
        }
    }
}

/// The enums of file `f` among the first `n`, in declaration order.
pub open spec fn enums_spec(pool: &Pool, f: usize, n: nat) -> Seq<usize>
    decreases n,
{
    if n == 0 {
        Seq::empty()
    } else {
        let s = enums_spec(pool, f, (n - 1) as nat);
        if pool.enums@[n - 1].file == f {
            s.push((n - 1) as usize)
        } else {
            s
        }
    }
}

proof fn lemma_classes_err(pool: &Pool, reg: Seq<MapEntry>, f: usize, n: nat, k: nat)
    requires
        n <= k,
        classes_spec(pool, reg, f, n) is Err,
    ensures
        classes_spec(pool, reg, f, k) == classes_spec(pool, reg, f, n),
    decreases k - n,
{
    if n < k {
        lemma_classes_err(pool, reg, f, n, (k - 1) as nat);
    }
}

/// The resolved model of one file.
pub struct FileModel {
    pub file: usize,
    pub classes: Vec<ClassNode>,
    pub enums: Vec<EnumNode>,
}

pub open spec fn classes_are(pool: &Pool, nodes: Seq<ClassNode>, cs: Seq<(usize, Seq<FieldType>)>) -> bool {
    &&& nodes.len() == cs.len()
    &&& forall|k: int| 0 <= k < cs.len() ==> class_is(pool, #[trigger] nodes[k], cs[k].0, cs[k].1)
}

pub open spec fn enums_are(pool: &Pool, nodes: Seq<EnumNode>, es: Seq<usize>) -> bool {
    &&& nodes.len() == es.len()
    &&& forall|k: int| 0 <= k < es.len() ==> enum_is(pool, #[trigger] nodes[k], es[k])
}

/// `md` is the model of file `f`: its classes and its enums, each in
/// declaration order.
pub open spec fn model_is(pool: &Pool, reg: Seq<MapEntry>, f: usize, md: FileModel) -> bool {
    let cs = classes_spec(pool, reg, f, pool.messages@.len() as nat);
    &&& md.file == f
    &&& cs is Ok
    &&& classes_are(pool, md.classes@, cs->Ok_0)
    &&& enums_are(pool, md.enums@, enums_spec(pool, f, pool.enums@.len() as nat))
}

/// Builds the model of file `f`; fails as a whole on the first field that
/// does not resolve.
pub fn build_file_model(pool: &Pool, table: &SymbolTable, reg: &Vec<MapEntry>, f: usize) -> (r:
    Result<FileModel, CompileError>)
    requires
        table.of(pool),
    ensures
        match r {
            Ok(md) => model_is(pool, reg@, f, md),
            Err(e) => classes_spec(pool, reg@, f, pool.messages@.len() as nat) == Err::<
                Seq<(usize, Seq<FieldType>)>,
                CompileError,
            >(e),
        },
{
    let mut classes: Vec<ClassNode> = Vec::new();
    let ghost mut cs: Seq<(usize, Seq<FieldType>)> = Seq::empty();
    let mut m: usize = 0;
    while m < pool.messages.len()
        invariant
            table.of(pool),
            m <= pool.messages@.len(),
            classes_spec(pool, reg@, f, m as nat) == Ok::<Seq<(usize, Seq<FieldType>)>, CompileError>(cs),
            classes_are(pool, classes@, cs),
        decreases pool.messages@.len() - m,
    {
        let msg = &pool.messages[m];
        if msg.file == f && !msg.map_entry {
            match build_class(pool, table, reg, m) {
                Err(e) => {
                    proof {
                        lemma_classes_err(pool, reg@, f, (m + 1) as nat, pool.messages@.len() as nat);
                    }
                    return Err(e);
                },
                Ok(c) => {
                    let ghost tys = fields_spec(pool, reg@, m, pool.messages@[m as int].fields@.len() as nat)->Ok_0;
                    let ghost before = classes@;
                    classes.push(c);
                    proof {
                        cs = cs.push((m, tys));
                        assert(forall|k: int| 0 <= k < cs.len() - 1 ==> classes@[k] == before[k]);
                    }
                },
            }
        }
        m = m + 1;
    }
    let mut enums: Vec<EnumNode> = Vec::new();
    let mut j: usize = 0;
    while j < pool.enums.len()
        invariant
            table.of(pool),
            j <= pool.enums@.len(),
            enums_are(pool, enums@, enums_spec(pool, f, j as nat)),
        decreases pool.enums@.len() - j,
    {
        if pool.enums[j].file == f {
            let e = build_enum(pool, table, j);
            enums.push(e);
        }
        j = j + 1;
    }
    Ok(FileModel { file: f, classes, enums })
}

} // verus!
