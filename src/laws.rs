//! Properties of the compiler, stated over the specifications of its parts.
use vstd::prelude::*;
use crate::descriptor::{Pool, Request, WireKind};
use crate::driver::{expected_response, file_output_spec, response_view, Response};
use crate::model::{
    classes_spec, emits_class, entry_shape_ok, entry_spec, field_type_spec, fields_spec,
    registry_spec, valid_field, value_type_spec, CompileError, FieldType, MapEntry, ValueType,
};
use crate::names::{resolve_spec, resolves_to, symbol_valid, Symbol};

verus! {

/// The kinds whose fields refer to another type by name.
pub open spec fn is_reference_kind(k: WireKind) -> bool {
    matches!(k, WireKind::Message | WireKind::Enum)
}

/// A resolved reference names a symbol of the pool.
pub proof fn lemma_resolved_valid(pool: &Pool, r: Seq<char>)
    ensures
        resolve_spec(pool, r) matches Some(s) ==> resolves_to(pool, r, s) && symbol_valid(pool, s),
{
}

/// A registry without error has one entry per message, each the message's
/// own contribution.
pub proof fn lemma_registry_entries(pool: &Pool, n: nat)
    requires
        registry_spec(pool, n) is Ok,
    ensures
        registry_spec(pool, n)->Ok_0.len() == n,
        forall|j: int|
            0 <= j < n ==> entry_spec(pool, j as usize) == Ok::<MapEntry, CompileError>(
                #[trigger] registry_spec(pool, n)->Ok_0[j],
            ),
    decreases n,
{
    if n > 0 {
        lemma_registry_entries(pool, (n - 1) as nat);
    }
}

/// A field whose type is a map entry has the entry's two fields `key` and
/// `value`, and resolves to a map from the key's type to the value's type.
pub proof fn lemma_map_field(pool: &Pool, m: usize, f: usize, j: usize)
    requires
        registry_spec(pool, pool.messages@.len() as nat) is Ok,
        valid_field(pool, m, f),
        value_type_spec(pool, m, f) == Ok::<ValueType, CompileError>(ValueType::Message(j)),
        pool.messages@[j as int].map_entry,
    ensures
        entry_shape_ok(pool, j),
        value_type_spec(pool, j, 0) is Ok,
        value_type_spec(pool, j, 1) is Ok,
        field_type_spec(pool, registry_spec(pool, pool.messages@.len() as nat)->Ok_0, m, f)
            == Ok::<FieldType, CompileError>(
            FieldType::Dict(value_type_spec(pool, j, 0)->Ok_0, value_type_spec(pool, j, 1)->Ok_0),
        ),
{
    let fd = pool.messages@[m as int].fields@[f as int];
    lemma_resolved_valid(pool, fd.type_ref@);
    assert(j < pool.messages@.len());
    lemma_registry_entries(pool, pool.messages@.len() as nat);
    let reg = registry_spec(pool, pool.messages@.len() as nat)->Ok_0;
    assert(entry_spec(pool, j) == Ok::<MapEntry, CompileError>(reg[j as int]));
}

/// The classes of a file are messages of that file, and never map entries.
pub proof fn lemma_entries_not_emitted(pool: &Pool, reg: Seq<MapEntry>, f: usize, n: nat)
    requires
        n <= pool.messages@.len(),
        classes_spec(pool, reg, f, n) is Ok,
    ensures
        forall|k: int|
            0 <= k < classes_spec(pool, reg, f, n)->Ok_0.len() ==> {
                let m = (#[trigger] classes_spec(pool, reg, f, n)->Ok_0[k]).0;
                &&& m < n
                &&& emits_class(pool, f, m as int)
                &&& !pool.messages@[m as int].map_entry
            },
    decreases n,
{
    if n > 0 {
        lemma_entries_not_emitted(pool, reg, f, (n - 1) as nat);
    }
}

/// A message or enum field refers directly to the one symbol its reference
/// names; where the reference names none or several, the field fails with
/// `UnresolvedReference`.
pub proof fn lemma_reference_resolution(pool: &Pool, reg: Seq<MapEntry>, m: usize, f: usize)
    requires
        valid_field(pool, m, f),
        is_reference_kind(pool.messages@[m as int].fields@[f as int].kind),
    ensures
        ({
            let r = pool.messages@[m as int].fields@[f as int].type_ref@;
            match resolve_spec(pool, r) {
                Some(Symbol::Message(j)) => resolves_to(pool, r, Symbol::Message(j))
                    && value_type_spec(pool, m, f) == Ok::<ValueType, CompileError>(
                    ValueType::Message(j),
                ),
                Some(Symbol::Enum(j)) => resolves_to(pool, r, Symbol::Enum(j)) && value_type_spec(
                    pool,
                    m,
                    f,
                ) == Ok::<ValueType, CompileError>(ValueType::Enum(j)),
                None => field_type_spec(pool, reg, m, f) == Err::<FieldType, CompileError>(
                    CompileError::UnresolvedReference { message: m, field: f },
                ),
            }
        }),
{
    lemma_resolved_valid(pool, pool.messages@[m as int].fields@[f as int].type_ref@);
}

proof fn lemma_fields_fail(pool: &Pool, reg: Seq<MapEntry>, m: usize, f: usize, n: nat)
    requires
        f < n,
        field_type_spec(pool, reg, m, f) is Err,
    ensures
        fields_spec(pool, reg, m, n) is Err,
    decreases n,
{
    if n > f + 1 {
        lemma_fields_fail(pool, reg, m, f, (n - 1) as nat);
    }
}

proof fn lemma_classes_fail(pool: &Pool, reg: Seq<MapEntry>, file: usize, m: usize, n: nat)
    requires
        m < n,
        emits_class(pool, file, m as int),
        fields_spec(pool, reg, m, pool.messages@[m as int].fields@.len() as nat) is Err,
    ensures
        classes_spec(pool, reg, file, n) is Err,
    decreases n,
{
    if n > m + 1 {
        lemma_classes_fail(pool, reg, file, m, (n - 1) as nat);
    }
}

/// A file holding a class with a field that fails to resolve produces no
/// output at all: the whole file fails.
pub proof fn lemma_no_partial_output(pool: &Pool, reg: Seq<MapEntry>, file: usize, m: usize, f: usize)
    requires
        valid_field(pool, m, f),
        emits_class(pool, file, m as int),
        field_type_spec(pool, reg, m, f) is Err,
    ensures
        file_output_spec(pool, reg, file) is Err,
{
    lemma_fields_fail(pool, reg, m, f, pool.messages@[m as int].fields@.len() as nat);
    lemma_classes_fail(pool, reg, file, m, pool.messages@.len() as nat);
}

/// Two answers to one request are the same, byte for byte.
pub proof fn lemma_deterministic(req: &Request, a: Response, b: Response)
    requires
        response_view(a) == expected_response(req),
        response_view(b) == expected_response(req),
    ensures
        response_view(a) == response_view(b),
{
}

} // verus!
