//! Fully-qualified names and the resolution of dotted type references.
use vstd::prelude::*;
use crate::descriptor::Pool;

verus! {

/// A message or enum of the pool, by index.
#[derive(Clone, Copy, Debug, PartialEq, Eq, Structural)]
pub enum Symbol {
    Message(usize),
    Enum(usize),
}

/// `prefix.name`, or `name` alone under an empty prefix.
pub open spec fn join(prefix: Seq<char>, name: Seq<char>) -> Seq<char> {
    if prefix.len() == 0 {
        name
    } else {
        prefix + seq!['.'] + name
    }
}

pub open spec fn package_of(pool: &Pool, f: usize) -> Seq<char> {
    if f < pool.files@.len() {
        pool.files@[f as int].package@
    } else {
        Seq::empty()
    }
}

/// `<package>.<enclosing message names>.<name>` of message `i`.
pub open spec fn message_qname(pool: &Pool, i: int) -> Seq<char>
    decreases i,
{
    if 0 <= i < pool.messages@.len() {
        let m = pool.messages@[i];
        match m.parent {
            Some(p) => if (p as int) < i {
                join(message_qname(pool, p as int), m.name@)
            } else {
                m.name@
            },
            None => join(package_of(pool, m.file), m.name@),
        }
    } else {
        Seq::empty()
    }
}

pub open spec fn enum_qname(pool: &Pool, i: int) -> Seq<char> {
    if 0 <= i < pool.enums@.len() {
        let e = pool.enums@[i];
        match e.parent {
            Some(p) => join(message_qname(pool, p as int), e.name@),
            None => join(package_of(pool, e.file), e.name@),
        }
    } else {
        Seq::empty()
    }
}

pub open spec fn symbol_valid(pool: &Pool, s: Symbol) -> bool {
    match s {
        Symbol::Message(i) => i < pool.messages@.len(),
        Symbol::Enum(i) => i < pool.enums@.len(),
    }
}

pub open spec fn symbol_qname(pool: &Pool, s: Symbol) -> Seq<char> {
    match s {
        Symbol::Message(i) => message_qname(pool, i as int),
        Symbol::Enum(i) => enum_qname(pool, i as int),
    }
}

/// Whether qualified name `q` answers reference `r`: after a leading dot the
/// rest must equal `q`; a relative reference may also name a dotted suffix.
pub open spec fn ref_matches(q: Seq<char>, r: Seq<char>) -> bool {
    if r.len() > 0 && r[0] == '.' {
        q == r.drop_first()
    } else {
        q == r || (q.len() > r.len() && q[q.len() - r.len() - 1] == '.' && q.subrange(
            q.len() - r.len(),
            q.len() as int,
        ) == r)
    }
}

pub open spec fn names_symbol(pool: &Pool, r: Seq<char>, s: Symbol) -> bool {
    symbol_valid(pool, s) && ref_matches(symbol_qname(pool, s), r)
}

/// `s` is the one symbol of the pool that `r` names.
pub open spec fn resolves_to(pool: &Pool, r: Seq<char>, s: Symbol) -> bool {
    &&& names_symbol(pool, r, s)
    &&& forall|t: Symbol| #[trigger] names_symbol(pool, r, t) ==> t == s
}

pub open spec fn resolve_spec(pool: &Pool, r: Seq<char>) -> Option<Symbol> {
    if exists|s: Symbol| resolves_to(pool, r, s) {
        Some(choose|s: Symbol| resolves_to(pool, r, s))
    } else {
        None
    }
}

/// The qualified names of every message and enum of a pool, by index.
pub struct SymbolTable {
    pub messages: Vec<String>,
    pub enums: Vec<String>,
}

impl SymbolTable {
    pub open spec fn of(&self, pool: &Pool) -> bool {
        &&& self.messages@.len() == pool.messages@.len()
        &&& self.enums@.len() == pool.enums@.len()
        &&& forall|i: int|
            0 <= i < self.messages@.len() ==> #[trigger] self.messages@[i]@ == message_qname(
                pool,
                i,
            )
        &&& forall|i: int| 0 <= i < self.enums@.len() ==> #[trigger] self.enums@[i]@ == enum_qname(pool, i)
    }
}

/// Qualified name under a prefix.
pub fn join_name(prefix: &String, name: &String) -> (r: String)
    ensures
        r@ == join(prefix@, name@),
{
    if prefix.as_str().unicode_len() == 0 {
        name.clone()
    } else {
        let mut s = prefix.clone();
        s.append(".");
        s.append(name.as_str());
        proof {
            reveal_strlit(".");
        }
        s
    }
}

/// Builds the table of qualified names of a well-formed pool.
pub fn build_table(pool: &Pool) -> (t: SymbolTable)
    requires
        pool.well_formed(),
    ensures
        t.of(pool),
{
    let mut messages: Vec<String> = Vec::new();
    let mut i: usize = 0;
    while i < pool.messages.len()
        invariant
            pool.well_formed(),
            i <= pool.messages@.len(),
            messages@.len() == i,
            forall|k: int| 0 <= k < i ==> #[trigger] messages@[k]@ == message_qname(pool, k),
        decreases pool.messages@.len() - i,
    {
        let m = &pool.messages[i];
        assert(pool.message_ok(i as int));
        let q = match m.parent {
            Some(p) => join_name(&messages[p], &m.name),
            None => join_name(&pool.files[m.file].package, &m.name),
        };
        messages.push(q);
        i = i + 1;
    }
    let mut enums: Vec<String> = Vec::new();
    let mut j: usize = 0;
    while j < pool.enums.len()
        invariant
            pool.well_formed(),
            j <= pool.enums@.len(),
            enums@.len() == j,
            messages@.len() == pool.messages@.len(),
            forall|k: int| 0 <= k < messages@.len() ==> #[trigger] messages@[k]@ == message_qname(pool, k),
            forall|k: int| 0 <= k < j ==> #[trigger] enums@[k]@ == enum_qname(pool, k),
        decreases pool.enums@.len() - j,
    {
        let e = &pool.enums[j];
        assert(pool.enum_ok(j as int));
        let q = match e.parent {
            Some(p) => join_name(&messages[p], &e.name),
            None => join_name(&pool.files[e.file].package, &e.name),
        };
        enums.push(q);
        j = j + 1;
    }
    SymbolTable { messages, enums }
}

/// Whether `q[qo..qo+n]` equals `r[ro..ro+n]`.
fn same_chars(q: &str, qo: usize, r: &str, ro: usize, n: usize) -> (b: bool)
    requires
        qo + n <= q@.len() <= usize::MAX,
        ro + n <= r@.len() <= usize::MAX,
    ensures
        b == (q@.subrange(qo as int, qo + n) == r@.subrange(ro as int, ro + n)),
{
    let mut k: usize = 0;
    while k < n
        invariant
            qo + n <= q@.len() <= usize::MAX,
            ro + n <= r@.len() <= usize::MAX,
            k <= n,
            q@.subrange(qo as int, qo + k) =~= r@.subrange(ro as int, ro + k),
        decreases n - k,
    {
        if q.get_char(qo + k) != r.get_char(ro + k) {
            assert(q@.subrange(qo as int, qo + n)[k as int] != r@.subrange(ro as int, ro + n)[k as int]);
            return false;
        }
        assert(q@.subrange(qo as int, qo + k + 1) =~= q@.subrange(qo as int, qo + k).push(q@[qo + k]));
        assert(r@.subrange(ro as int, ro + k + 1) =~= r@.subrange(ro as int, ro + k).push(r@[ro + k]));
        k = k + 1;
    }
    true
}

/// Decides `ref_matches`.
pub fn matches_ref(q: &String, r: &String) -> (b: bool)
    ensures
        b == ref_matches(q@, r@),
{
    let qs = q.as_str();
    let rs = r.as_str();
    let ql = qs.unicode_len();
    let rl = rs.unicode_len();
    if rl > 0 && rs.get_char(0) == '.' {
        if rl - 1 != ql {
            assert(q@.len() != r@.drop_first().len());
            return false;
        }
        let b = same_chars(qs, 0, rs, 1, ql);
        assert(q@.subrange(0, ql as int) =~= q@);
        assert(r@.subrange(1, 1 + ql) =~= r@.drop_first());
        b
    } else {
        if ql == rl {
            let b = same_chars(qs, 0, rs, 0, rl);
            assert(q@.subrange(0, ql as int) =~= q@);
            assert(r@.subrange(0, rl as int) =~= r@);
            b
        } else if ql > rl && qs.get_char(ql - rl - 1) == '.' {
            let b = same_chars(qs, ql - rl, rs, 0, rl);
            assert(r@.subrange(0, rl as int) =~= r@);
            b
        } else {
            false
        }
    }
}

/// Among the first `nm` messages and `ne` enums.
pub open spec fn within(s: Symbol, nm: int, ne: int) -> bool {
    match s {
        Symbol::Message(i) => i < nm,
        Symbol::Enum(i) => i < ne,
    }
}

/// What a scan of the first `nm` messages and `ne` enums has found: the one
/// symbol among them that `r` names, or none if none does.
pub open spec fn scanned(pool: &Pool, r: Seq<char>, nm: int, ne: int, found: Option<Symbol>) -> bool {
    match found {
        None => forall|t: Symbol| within(t, nm, ne) ==> !#[trigger] names_symbol(pool, r, t),
        Some(s) => {
            &&& within(s, nm, ne)
            &&& names_symbol(pool, r, s)
            &&& forall|t: Symbol| within(t, nm, ne) && #[trigger] names_symbol(pool, r, t) ==> t == s
        },
    }
}

proof fn lemma_two_names(pool: &Pool, r: Seq<char>, a: Symbol, b: Symbol)
    requires
        names_symbol(pool, r, a),
        names_symbol(pool, r, b),
        a != b,
    ensures
        resolve_spec(pool, r) is None,
{
    assert forall|x: Symbol| !resolves_to(pool, r, x) by {
        if resolves_to(pool, r, x) {
            assert(names_symbol(pool, r, a));
            assert(names_symbol(pool, r, b));
        }
    }
}

/// The one symbol of the pool that reference `r` names, or `None` where it
/// names none or several.
pub fn resolve(pool: &Pool, table: &SymbolTable, r: &String) -> (s: Option<Symbol>)
    requires
        table.of(pool),
    ensures
        s == resolve_spec(pool, r@),
{
    let mut found: Option<Symbol> = None;
    let mut i: usize = 0;
    while i < table.messages.len()
        invariant
            table.of(pool),
            i <= table.messages@.len(),
            scanned(pool, r@, i as int, 0, found),
        decreases table.messages@.len() - i,
    {
        let b = matches_ref(&table.messages[i], r);
        assert(b == names_symbol(pool, r@, Symbol::Message(i)));
        if b {
            match found {
                Some(t) => {
                    proof {
                        lemma_two_names(pool, r@, t, Symbol::Message(i));
                    }
                    return None;
                },
                None => {
                    found = Some(Symbol::Message(i));
                },
            }
        }
        i = i + 1;
    }
    let mut j: usize = 0;
    while j < table.enums.len()
        invariant
            table.of(pool),
            j <= table.enums@.len(),
            scanned(pool, r@, pool.messages@.len() as int, j as int, found),
        decreases table.enums@.len() - j,
    {
        let b = matches_ref(&table.enums[j], r);
        assert(b == names_symbol(pool, r@, Symbol::Enum(j)));
        if b {
            match found {
                Some(t) => {
                    proof {
                        lemma_two_names(pool, r@, t, Symbol::Enum(j));
                    }
                    return None;
                },
                None => {
                    found = Some(Symbol::Enum(j));
                },
            }
        }
        j = j + 1;
    }
    proof {
        assert forall|t: Symbol| #[trigger] symbol_valid(pool, t) == within(
            t,
            pool.messages@.len() as int,
            pool.enums@.len() as int,
        ) by {}
        match found {
            Some(s) => {
                assert(resolves_to(pool, r@, s));
                let c = choose|c: Symbol| resolves_to(pool, r@, c);
                assert(c == s);
            },
            None => {
                assert forall|x: Symbol| !resolves_to(pool, r@, x) by {
                    if resolves_to(pool, r@, x) {
                        assert(symbol_valid(pool, x));
                    }
                }
            },
        }
    }
    found
}

} // verus!
