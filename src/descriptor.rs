//! The descriptor graph a compilation starts from, held as flat arenas.
//!
//! Messages and enums are stored in depth-first declaration order. A nested
//! declaration names its enclosing message by index (a non-owning link), and
//! every declaration names the file it belongs to.
use vstd::prelude::*;

verus! {

/// The declared wire type of a field.
#[derive(Clone, Copy, Debug, PartialEq, Eq, Structural)]
pub enum WireKind {
    Double,
    Float,
    Int64,
    UInt64,
    Int32,
    Fixed64,
    Fixed32,
    Bool,
    String,
    Group,
    Message,
    Bytes,
    UInt32,
    Enum,
    SFixed32,
    SFixed64,
    SInt32,
    SInt64,
}

/// The cardinality of a field.
#[derive(Clone, Copy, Debug, PartialEq, Eq, Structural)]
pub enum Label {
    Optional,
    Required,
    Repeated,
}

pub struct FieldDecl {
    pub name: String,
    pub kind: WireKind,
    pub label: Label,
    /// The referenced type's dotted name, for message and enum fields.
    pub type_ref: String,
    /// Set on a proto3 field written with the `optional` keyword.
    pub proto3_optional: bool,
}

pub struct MessageDecl {
    pub name: String,
    /// The enclosing message, if any; it precedes this one in the arena.
    pub parent: Option<usize>,
    pub file: usize,
    pub fields: Vec<FieldDecl>,
    pub map_entry: bool,
}

pub struct EnumValueDecl {
    pub name: String,
    pub number: i32,
}

pub struct EnumDecl {
    pub name: String,
    /// The enclosing message, if any.
    pub parent: Option<usize>,
    pub file: usize,
    pub values: Vec<EnumValueDecl>,
}

pub struct FileDecl {
    pub path: String,
    pub package: String,
    pub dependencies: Vec<String>,
}

/// Every file of a request, with all of their messages and enums.
pub struct Pool {
    pub files: Vec<FileDecl>,
    pub messages: Vec<MessageDecl>,
    pub enums: Vec<EnumDecl>,
}

/// What the protocol compiler hands to a plugin.
pub struct Request {
    pub file_to_generate: Vec<String>,
    pub pool: Pool,
}

impl Pool {
    /// Every link points backwards to a message of the same file, and every
    /// file index is in range.
    pub open spec fn well_formed(&self) -> bool {
        &&& forall|i: int| 0 <= i < self.messages@.len() ==> self.message_ok(i)
        &&& forall|i: int| 0 <= i < self.enums@.len() ==> self.enum_ok(i)
    }

    pub open spec fn message_ok(&self, i: int) -> bool {
        let m = self.messages@[i];
        &&& m.file < self.files@.len()
        &&& match m.parent {
            Some(p) => p < i && self.messages@[p as int].file == m.file,
            None => true,
        }
    }

    pub open spec fn enum_ok(&self, i: int) -> bool {
        let e = self.enums@[i];
        &&& e.file < self.files@.len()
        &&& match e.parent {
            Some(p) => p < self.messages@.len() && self.messages@[p as int].file == e.file,
            None => true,
        }
    }

    /// Decides `well_formed`.
    pub fn check(&self) -> (r: bool)
        ensures
            r == self.well_formed(),
    {
        let mut i: usize = 0;
        while i < self.messages.len()
            invariant
                i <= self.messages@.len(),
                forall|k: int| 0 <= k < i ==> self.message_ok(k),
            decreases self.messages@.len() - i,
        {
            let m = &self.messages[i];
            if m.file >= self.files.len() {
                assert(!self.message_ok(i as int));
                return false;
            }
            match m.parent {
                Some(p) => {
                    if p >= i || self.messages[p].file != m.file {
                        assert(!self.message_ok(i as int));
                        return false;
                    }
                },
                None => {},
            }
            i = i + 1;
        }
        let mut j: usize = 0;
        while j < self.enums.len()
            invariant
                j <= self.enums@.len(),
                forall|k: int| 0 <= k < self.messages@.len() ==> self.message_ok(k),
                forall|k: int| 0 <= k < j ==> self.enum_ok(k),
            decreases self.enums@.len() - j,
        {
            let e = &self.enums[j];
            if e.file >= self.files.len() {
                assert(!self.enum_ok(j as int));
                return false;
            }
            match e.parent {
                Some(p) => {
                    if p >= self.messages.len() || self.messages[p].file != e.file {
                        assert(!self.enum_ok(j as int));
                        return false;
                    }
                },
                None => {},
            }
            j = j + 1;
        }
        true
    }
}

} // verus!
