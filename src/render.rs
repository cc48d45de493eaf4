//! Python text for a resolved file model.
use vstd::prelude::*;
use crate::descriptor::Pool;
use crate::model::{
    class_is, classes_spec, enum_is, enums_spec, ClassNode, EnumNode, FieldType, FileModel,
    MapEntry, ValueType, fields_are, model_is,
};
use crate::names::{enum_qname, message_qname, SymbolTable};
use crate::scalar::{py_scalar, py_scalar_name};

verus! {

/// Decimal digits of a natural number.
pub open spec fn nat_digits(n: nat) -> Seq<char>
    decreases n,
{
    let d = seq![(('0' as u8) + (n % 10) as u8) as char];
    if n < 10 {
        d
    } else {
        nat_digits(n / 10) + d
    }
}

/// Decimal text of an integer, with a leading `-` when negative.
pub open spec fn decimal(n: int) -> Seq<char> {
    if n < 0 {
        seq!['-'] + nat_digits((-n) as nat)
    } else {
        nat_digits(n as nat)
    }
}

/// Relies on `i32`'s `Display`: the decimal form, `-` before a negative value.
#[verifier::external_body]
fn decimal_text(n: i32) -> (r: String)
    ensures
        r@ == decimal(n as int),
{
    n.to_string()
}

pub open spec fn value_text(pool: &Pool, v: ValueType) -> Seq<char> {
    match v {
        ValueType::Scalar(s) => py_scalar(s),
        ValueType::Message(j) => message_qname(pool, j as int),
        ValueType::Enum(j) => enum_qname(pool, j as int),
    }
}

pub open spec fn type_text(pool: &Pool, t: FieldType) -> Seq<char> {
    match t {
        FieldType::Single(v) => value_text(pool, v),
        FieldType::Optional(v) => value_text(pool, v) + " | None"@,
        FieldType::Repeated(v) => "list["@ + value_text(pool, v) + "]"@,
        FieldType::Dict(k, v) => "dict["@ + value_text(pool, k) + ", "@ + value_text(pool, v) + "]"@,
    }
}

fn value_name(pool: &Pool, table: &SymbolTable, v: ValueType) -> (r: String)
    requires
        table.of(pool),
    ensures
        r@ == value_text(pool, v),
{
    match v {
        ValueType::Scalar(s) => String::from_str(py_scalar_name(s)),
        ValueType::Message(j) => if j < table.messages.len() {
            table.messages[j].clone()
        } else {
            String::new()
        },
        ValueType::Enum(j) => if j < table.enums.len() {
            table.enums[j].clone()
        } else {
            String::new()
        },
    }
}

/// The annotation of a field type.
pub fn annotation(pool: &Pool, table: &SymbolTable, t: FieldType) -> (r: String)
    requires
        table.of(pool),
    ensures
        r@ == type_text(pool, t),
{
    proof {
        reveal_strlit(" | None");
        reveal_strlit("list[");
        reveal_strlit("]");
        reveal_strlit("dict[");
        reveal_strlit(", ");
    }
    match t {
        FieldType::Single(v) => value_name(pool, table, v),
        FieldType::Optional(v) => {
            let mut s = value_name(pool, table, v);
            s.append(" | None");
            s
        },
        FieldType::Repeated(v) => {
            let mut s = String::from_str("list[");
            let inner = value_name(pool, table, v);
            s.append(inner.as_str());
            s.append("]");
            s
        },
        FieldType::Dict(k, v) => {
            let mut s = String::from_str("dict[");
            let kt = value_name(pool, table, k);
            let vt = value_name(pool, table, v);
            s.append(kt.as_str());
            s.append(", ");
            s.append(vt.as_str());
            s.append("]");
            s
        },
    }
}

pub open spec fn field_lines(pool: &Pool, m: usize, tys: Seq<FieldType>) -> Seq<char>
    decreases tys.len(),
{
    if tys.len() == 0 {
        Seq::empty()
    } else {
        let k = tys.len() - 1;
        field_lines(pool, m, tys.drop_last()) + "    "@ + pool.messages@[m as int].fields@[k].name@
            + ": "@ + type_text(pool, tys[k]) + "\n"@
    }
}

pub open spec fn body_or_pass(lines: Seq<char>) -> Seq<char> {
    if lines.len() == 0 {
        "    pass\n"@
    } else {
        lines
    }
}

/// The class of message `m` with field types `tys`.
pub open spec fn class_text(pool: &Pool, m: usize, tys: Seq<FieldType>) -> Seq<char> {
    "\nclass "@ + message_qname(pool, m as int) + "(pydantic.BaseModel):\n"@ + body_or_pass(
        field_lines(pool, m, tys),
    )
}

pub open spec fn variant_lines(pool: &Pool, j: usize, n: nat) -> Seq<char>
    decreases n,
{
    if n == 0 {
        Seq::empty()
    } else {
        let v = pool.enums@[j as int].values@[n - 1];
        variant_lines(pool, j, (n - 1) as nat) + "    "@ + v.name@ + " = "@ + decimal(v.number as int)
            + "\n"@
    }
}

pub open spec fn enum_text(pool: &Pool, j: usize) -> Seq<char> {
    "\nclass "@ + enum_qname(pool, j as int) + "(enum.IntEnum):\n"@ + body_or_pass(
        variant_lines(pool, j, pool.enums@[j as int].values@.len() as nat),
    )
}

pub open spec fn classes_text(pool: &Pool, cs: Seq<(usize, Seq<FieldType>)>) -> Seq<char>
    decreases cs.len(),
{
    if cs.len() == 0 {
        Seq::empty()
    } else {
        classes_text(pool, cs.drop_last()) + class_text(pool, cs.last().0, cs.last().1)
    }
}

pub open spec fn enums_text(pool: &Pool, es: Seq<usize>) -> Seq<char>
    decreases es.len(),
{
    if es.len() == 0 {
        Seq::empty()
    } else {
        enums_text(pool, es.drop_last()) + enum_text(pool, es.last())
    }
}

pub open spec fn header() -> Seq<char> {
    "import enum\n\nimport pydantic\n"@
}

/// The module text of a file with classes `cs` and enums `es`.
pub open spec fn file_text(pool: &Pool, cs: Seq<(usize, Seq<FieldType>)>, es: Seq<usize>) -> Seq<
    char,
> {
    header() + classes_text(pool, cs) + enums_text(pool, es)
}

pub open spec fn node_types(c: ClassNode) -> Seq<FieldType> {
    c.fields@.map_values(|n: crate::model::FieldNode| n.ty)
}

/// The text of one class node.
pub fn render_class(pool: &Pool, table: &SymbolTable, c: &ClassNode) -> (r: String)
    requires
        table.of(pool),
        c.message < pool.messages@.len(),
        c.name@ == message_qname(pool, c.message as int),
        fields_are(pool, c.fields@, c.message, node_types(*c)),
    ensures
        r@ == class_text(pool, c.message, node_types(*c)),
{
    proof {
        reveal_strlit("\nclass ");
        reveal_strlit("(pydantic.BaseModel):\n");
        reveal_strlit("    ");
        reveal_strlit(": ");
        reveal_strlit("\n");
        reveal_strlit("    pass\n");
    }
    let ghost tys = node_types(*c);
    let mut lines = String::new();
    let mut k: usize = 0;
    while k < c.fields.len()
        invariant
            table.of(pool),
            c.message < pool.messages@.len(),
            fields_are(pool, c.fields@, c.message, tys),
            tys == node_types(*c),
            k <= c.fields@.len(),
            lines@ == field_lines(pool, c.message, tys.take(k as int)),
        decreases c.fields@.len() - k,
    {
        let fnode = &c.fields[k];
        let t = annotation(pool, table, fnode.ty);
        lines.append("    ");
        lines.append(fnode.name.as_str());
        lines.append(": ");
        lines.append(t.as_str());
        lines.append("\n");
        proof {
            assert(tys.take(k + 1).drop_last() =~= tys.take(k as int));
            assert(fnode.name@ == pool.messages@[c.message as int].fields@[k as int].name@);
        }
        k = k + 1;
    }
    assert(tys.take(k as int) =~= tys);
    let mut s = String::from_str("\nclass ");
    s.append(c.name.as_str());
    s.append("(pydantic.BaseModel):\n");
    if k == 0 {
        s.append("    pass\n");
    } else {
        s.append(lines.as_str());
    }
    s
}

/// The text of one enum node.
pub fn render_enum(pool: &Pool, e: &EnumNode) -> (r: String)
    requires
        e.decl < pool.enums@.len(),
        enum_is(pool, *e, e.decl),
    ensures
        r@ == enum_text(pool, e.decl),
{
    proof {
        reveal_strlit("\nclass ");
        reveal_strlit("(enum.IntEnum):\n");
        reveal_strlit("    ");
        reveal_strlit(" = ");
        reveal_strlit("\n");
        reveal_strlit("    pass\n");
    }
    let mut lines = String::new();
    let mut k: usize = 0;
    while k < e.variants.len()
        invariant
            e.decl < pool.enums@.len(),
            enum_is(pool, *e, e.decl),
            k <= e.variants@.len(),
            lines@ == variant_lines(pool, e.decl, k as nat),
        decreases e.variants@.len() - k,
    {
        let v = &e.variants[k];
        let num = decimal_text(v.number);
        lines.append("    ");
        lines.append(v.name.as_str());
        lines.append(" = ");
        lines.append(num.as_str());
        lines.append("\n");
        k = k + 1;
    }
    let mut s = String::from_str("\nclass ");
    s.append(e.name.as_str());
    s.append("(enum.IntEnum):\n");
    if k == 0 {
        s.append("    pass\n");
    } else {
        s.append(lines.as_str());
    }
    s
}

/// The module text of a file model.
pub fn render_file(pool: &Pool, table: &SymbolTable, reg: &Vec<MapEntry>, md: &FileModel) -> (r:
    String)
    requires
        table.of(pool),
        model_is(pool, reg@, md.file, *md),
    ensures
        r@ == file_text(
            pool,
            classes_spec(pool, reg@, md.file, pool.messages@.len() as nat)->Ok_0,
            enums_spec(pool, md.file, pool.enums@.len() as nat),
        ),
{
    proof {
        reveal_strlit("import enum\n\nimport pydantic\n");
    }
    let ghost cs = classes_spec(pool, reg@, md.file, pool.messages@.len() as nat)->Ok_0;
    let ghost es = enums_spec(pool, md.file, pool.enums@.len() as nat);
    let mut s = String::from_str("import enum\n\nimport pydantic\n");
    let mut k: usize = 0;
    while k < md.classes.len()
        invariant
            table.of(pool),
            model_is(pool, reg@, md.file, *md),
            cs == classes_spec(pool, reg@, md.file, pool.messages@.len() as nat)->Ok_0,
            k <= md.classes@.len(),
            s@ == header() + classes_text(pool, cs.take(k as int)),
        decreases md.classes@.len() - k,
    {
        let c = &md.classes[k];
        proof {
            assert(class_is(pool, *c, cs[k as int].0, cs[k as int].1));
            assert(node_types(*c) =~= cs[k as int].1);
        }
        let t = render_class(pool, table, c);
        s.append(t.as_str());
        proof {
            assert(cs.take(k + 1).drop_last() =~= cs.take(k as int));
        }
        k = k + 1;
    }
    assert(cs.take(k as int) =~= cs);
    let mut j: usize = 0;
    while j < md.enums.len()
        invariant
            model_is(pool, reg@, md.file, *md),
            es == enums_spec(pool, md.file, pool.enums@.len() as nat),
            j <= md.enums@.len(),
            s@ == header() + classes_text(pool, cs) + enums_text(pool, es.take(j as int)),
        decreases md.enums@.len() - j,
    {
        let e = &md.enums[j];
        proof {
            assert(enum_is(pool, *e, es[j as int]));
        }
        let t = render_enum(pool, e);
        s.append(t.as_str());
        proof {
            assert(es.take(j + 1).drop_last() =~= es.take(j as int));
        }
        j = j + 1;
    }
    assert(es.take(j as int) =~= es);
    s
}

} // verus!
