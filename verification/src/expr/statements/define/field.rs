//! `DEFINE FIELD`.

use vstd::prelude::*;
use vstd::string::StrSliceExecFns;
use crate::dbs::Options;
use crate::err::{Error, RefsClause, RelationEnd};
use crate::expr::kind::{Kind, Literal, same_optional_kind};
use crate::expr::part::{Idiom, Part};
use crate::expr::permission::Permissions;
use crate::expr::reference::Reference;
use crate::expr::statements::define::table::DefineTableStatement;
use crate::expr::statements::define::{Verdict, copy_text, define_verdict};
use crate::expr::table_type::{Relation, TableType};
use crate::key::table::fd::fd_key;
use crate::kvs::Key;
use crate::val::Value;

verus! {

/// The definition of a field of a table.
#[derive(Debug, PartialEq, Eq)]
pub struct DefineFieldStatement {
    pub name: Idiom,
    pub what: String,
    /// Whether the field is marked as flexible.
    /// Flexible allows the field to be schemaless even if the table is marked as schemafull.
    pub flex: bool,
    pub kind: Option<Kind>,
    pub readonly: bool,
    pub value: Option<Value>,
    pub assert: Option<Value>,
    pub default: Option<Value>,
    pub permissions: Permissions,
    pub comment: Option<String>,
    pub if_not_exists: bool,
    pub overwrite: bool,
    pub reference: Option<Reference>,
    pub default_always: bool,
}

/// Whether one of the kinds is a reference.
pub open spec fn any_references(kinds: Seq<Kind>) -> bool {
    exists|i: int| 0 <= i < kinds.len() && (#[trigger] kinds[i]) is References
}

/// Whether every one of the kinds is a reference.
pub open spec fn all_references(kinds: Seq<Kind>) -> bool {
    forall|i: int| 0 <= i < kinds.len() ==> (#[trigger] kinds[i]) is References
}

/// Whether every one of the kinds is a record.
pub open spec fn all_records(kinds: Seq<Kind>) -> bool {
    forall|i: int| 0 <= i < kinds.len() ==> (#[trigger] kinds[i]) is Record
}

/// The kinds that a kind stands for: its alternatives, or itself.
pub open spec fn alternatives(kind: &Kind) -> Seq<Kind> {
    match kind {
        Kind::Either(kinds) => kinds@,
        k => seq![*k],
    }
}

/// The kinds of what a field with a `REFERENCE` clause holds: those of the
/// kind itself, without an option around it; those of the elements, where the
/// kind is an array or a set; and those of a literal array.
pub open spec fn referenced(kind: &Kind) -> Seq<Kind> {
    match kind.optional_inner() {
        Kind::Either(kinds) => kinds@,
        Kind::Array(k, _) | Kind::Sets(k, _) => alternatives(&**k),
        Kind::Literal(Literal::Array(kinds)) => kinds@,
        k => seq![*k],
    }
}

/// The first clause that a field whose kind is a reference cannot have.
pub open spec fn refs_conflict(f: &DefineFieldStatement) -> Option<RefsClause> {
    if f.reference is Some {
        Some(RefsClause::Reference)
    } else if f.default is Some {
        Some(RefsClause::Default)
    } else if f.value is Some {
        Some(RefsClause::Value)
    } else if f.assert is Some {
        Some(RefsClause::Assert)
    } else if f.flex {
        Some(RefsClause::Flexible)
    } else if f.readonly {
        Some(RefsClause::Readonly)
    } else {
        None
    }
}

/// What is wrong with the references of a field, if anything.
///
/// Where one of the alternatives of the kind is a reference, all must be, and
/// the field can have none of the clauses `REFERENCE`, `DEFAULT`, `VALUE`,
/// `ASSERT`, `FLEXIBLE` and `READONLY`. A field with a `REFERENCE` clause
/// holds records.
pub open spec fn reference_error(f: &DefineFieldStatement) -> Option<Error> {
    match f.kind {
        Some(kind) => {
            if any_references(alternatives(&kind)) && !all_references(alternatives(&kind)) {
                Some(Error::RefsMismatchingVariants)
            } else if any_references(alternatives(&kind)) && refs_conflict(f) is Some {
                Some(Error::RefsTypeConflict { clause: refs_conflict(f)->0 })
            } else if f.reference is Some && !all_records(referenced(&kind)) {
                Some(Error::ReferenceTypeConflict)
            } else {
                None
            }
        },
        None => None,
    }
}

/// Whether one of the kinds is a reference.
fn has_references(kinds: &Vec<Kind>) -> (r: bool)
    ensures
        r == any_references(kinds@),
{
    let mut i: usize = 0;
    while i < kinds.len()
        invariant
            i <= kinds.len(),
            forall|j: int| 0 <= j < i ==> !((#[trigger] kinds[j]) is References),
        decreases kinds.len() - i,
    {
        if kinds[i].is_references() {
            return true;
        }
        i += 1;
    }
    false
}

/// Whether every one of the kinds is a reference.
fn only_references(kinds: &Vec<Kind>) -> (r: bool)
    ensures
        r == all_references(kinds@),
{
    let mut i: usize = 0;
    while i < kinds.len()
        invariant
            i <= kinds.len(),
            forall|j: int| 0 <= j < i ==> (#[trigger] kinds[j]) is References,
        decreases kinds.len() - i,
    {
        if !kinds[i].is_references() {
            return false;
        }
        i += 1;
    }
    true
}

/// Whether every one of the kinds is a record.
fn only_records(kinds: &Vec<Kind>) -> (r: bool)
    ensures
        r == all_records(kinds@),
{
    let mut i: usize = 0;
    while i < kinds.len()
        invariant
            i <= kinds.len(),
            forall|j: int| 0 <= j < i ==> (#[trigger] kinds[j]) is Record,
        decreases kinds.len() - i,
    {
        if !kinds[i].is_record() {
            return false;
        }
        i += 1;
    }
    true
}

/// Whether every alternative of the kind is a record.
fn alternatives_are_records(kind: &Kind) -> (r: bool)
    ensures
        r == all_records(alternatives(kind)),
{
    match kind {
        Kind::Either(kinds) => only_records(kinds),
        k => {
            assert(alternatives(kind)[0] == *k);
            k.is_record()
        },
    }
}

/// A deep copy of an optional kind.
fn copy_kind(kind: &Option<Kind>) -> (r: Option<Kind>)
    ensures
        same_optional_kind(*kind, r),
{
    match kind {
        Some(k) => Some(k.duplicate()),
        None => None,
    }
}

/// Whether `s` is the text `t`.
fn is_text(s: &str, t: &str) -> (r: bool)
    ensures
        r == (s@ == t@),
{
    let n = s.unicode_len();
    if n != t.unicode_len() {
        return false;
    }
    let mut i: usize = 0;
    while i < n
        invariant
            i <= n,
            n == s@.len(),
            n == t@.len(),
            forall|j: int| 0 <= j < i ==> s@[j] == t@[j],
        decreases n - i,
    {
        if s.get_char(i) != t.get_char(i) {
            return false;
        }
        i += 1;
    }
    assert(s@ =~= t@);
    true
}

impl DefineFieldStatement {
    /// Checks the references of the field.
    ///
    /// `enabled` tells whether references between records are switched on;
    /// nothing is checked where they are not.
    pub fn validate_reference_options(&self, enabled: bool) -> (r: Result<(), Error>)
        ensures
            r == (if enabled && reference_error(self) is Some {
                Err::<(), Error>(reference_error(self)->0)
            } else {
                Ok::<(), Error>(())
            }),
    {
        if !enabled {
            return Ok(());
        }
        if let Some(kind) = &self.kind {
            // Check if any of the kinds are references
            let (any, all) = match kind {
                Kind::Either(kinds) => (has_references(kinds), only_references(kinds)),
                k => {
                    assert(alternatives(kind)[0] == *k);
                    (k.is_references(), k.is_references())
                },
            };
            if any {
                // If any of the kinds are references, all of them must be
                if !all {
                    return Err(Error::RefsMismatchingVariants);
                }
                // As the refs and dynrefs type essentially take over a field
                // they are not allowed to be mixed with most other clauses
                if self.reference.is_some() {
                    return Err(Error::RefsTypeConflict { clause: RefsClause::Reference });
                }
                if self.default.is_some() {
                    return Err(Error::RefsTypeConflict { clause: RefsClause::Default });
                }
                if self.value.is_some() {
                    return Err(Error::RefsTypeConflict { clause: RefsClause::Value });
                }
                if self.assert.is_some() {
                    return Err(Error::RefsTypeConflict { clause: RefsClause::Assert });
                }
                if self.flex {
                    return Err(Error::RefsTypeConflict { clause: RefsClause::Flexible });
                }
                if self.readonly {
                    return Err(Error::RefsTypeConflict { clause: RefsClause::Readonly });
                }
            }
            // If a reference is defined, the field must be a record
            if self.reference.is_some() {
                let records = match kind.get_optional_inner_kind() {
                    Kind::Either(kinds) => only_records(kinds),
                    Kind::Array(k, _) => alternatives_are_records(k),
                    Kind::Sets(k, _) => alternatives_are_records(k),
                    Kind::Literal(Literal::Array(kinds)) => only_records(kinds),
                    k => {
                        assert(referenced(kind)[0] == *k);
                        k.is_record()
                    },
                };
                if !records {
                    return Err(Error::ReferenceTypeConflict);
                }
            }
        }
        Ok(())
    }

    /// Whether the kind of the field is an array or a set, with or without an
    /// option around it.
    pub open spec fn is_array_like(&self) -> bool {
        self.kind matches Some(k) && (k.optional_inner() is Array || k.optional_inner() is Sets)
    }

    /// Get the correct reference type if needed.
    ///
    /// Where the kind of the field refers to a field of a table, `found` is
    /// what the lookup of that field gave. Where that field holds an array or
    /// a set, the reference goes to its elements: the path of the reference
    /// gets a step that selects all of them. That the field is not defined
    /// is no error, and every other error of the lookup is handed on.
    pub fn get_reference_kind(&self, enabled: bool, found: Result<&DefineFieldStatement, Error>) -> (r:
        Result<Option<Kind>, Error>)
        ensures
            match self.kind {
                Some(Kind::References(Some(ft), Some(ff))) if enabled => match found {
                    Ok(fd) => if fd.is_array_like() {
                        r matches Ok(Some(Kind::References(Some(t), Some(f)))) && t == ft && f.0@
                            == ff.0@.push(Part::All)
                    } else {
                        r matches Ok(None)
                    },
                    Err(e) => if e is FdNotFound {
                        r matches Ok(None)
                    } else {
                        r == Err::<Option<Kind>, Error>(e)
                    },
                },
                _ => r matches Ok(None),
            },
    {
        if !enabled {
            return Ok(None);
        }
        if let Some(Kind::References(Some(ft), Some(ff))) = &self.kind {
            // Obtain the field definition
            let fd = match found {
                Ok(fd) => fd,
                // If the field does not exist, there is nothing to correct
                Err(e) => {
                    let missing = match &e {
                        Error::FdNotFound { .. } => true,
                        _ => false,
                    };
                    if missing {
                        return Ok(None);
                    } else {
                        return Err(e);
                    }
                },
            };
            // Check if the field is an array-like value and thus "containing" references
            let is_array_like = match &fd.kind {
                Some(kind) => match kind.get_optional_inner_kind() {
                    Kind::Array(_, _) => true,
                    Kind::Sets(_, _) => true,
                    _ => false,
                },
                None => false,
            };
            // If the field is an array-like value, add the `.*` part
            if is_array_like {
                let mut parts = ff.duplicate().0;
                parts.push(Part::All);
                return Ok(Some(Kind::References(Some(ft.clone()), Some(Idiom(parts)))));
            }
        }
        Ok(None)
    }

    /// The end of a relation that a field called `fd` is: `in` is where the
    /// edges come from, `out` where they go to.
    pub open spec fn relation_end(fd: Seq<char>) -> Option<RelationEnd> {
        if fd == "in"@ {
            Some(RelationEnd::In)
        } else if fd == "out"@ {
            Some(RelationEnd::Out)
        } else {
            None
        }
    }

    /// Whether the definition of the table `tb` is to be written anew for
    /// the field, which is the end `end` of the relation that the table is:
    /// the field has a kind, and it is not the kind that the table knows its
    /// edges to come from.
    pub open spec fn changes_relation(&self, tb: &DefineTableStatement) -> bool {
        tb.kind matches TableType::Relation(relation) && self.kind is Some && !same_optional_kind(
            relation.from,
            self.kind,
        )
    }

    /// Decides what the definition of the field `fd` means for the table
    /// `tb` that it belongs to.
    ///
    /// Only the fields `in` and `out` of a relation mean something: their
    /// kind, where they have one, must be a record, and it becomes the kind
    /// of the records that the edges come from or go to. The definition of
    /// the table is handed back where it is to be written anew.
    pub fn relation_update(&self, fd: &str, tb: &DefineTableStatement) -> (r: Result<
        Option<DefineTableStatement>,
        Error,
    >)
        ensures
            match Self::relation_end(fd@) {
                Some(end) if tb.kind is Relation && self.kind is Some => if !(self.kind->0 is Record) {
                    r == Err::<Option<DefineTableStatement>, Error>(
                        Error::RelationEndNotRecord { end },
                    )
                } else if self.changes_relation(tb) {
                    r matches Ok(Some(t)) && t.kind matches TableType::Relation(rel)
                        && same_optional_kind(
                        if end is In {
                            self.kind
                        } else {
                            tb.kind->Relation_0.from
                        },
                        rel.from,
                    ) && same_optional_kind(
                        if end is Out {
                            self.kind
                        } else {
                            tb.kind->Relation_0.to
                        },
                        rel.to,
                    ) && rel.enforced == tb.kind->Relation_0.enforced && t.id == tb.id && t.name
                        == tb.name && t.drop == tb.drop && t.full == tb.full && t.comment
                        == tb.comment && t.if_not_exists == tb.if_not_exists && t.overwrite
                        == tb.overwrite
                } else {
                    r matches Ok(None)
                },
                _ => r matches Ok(None),
            },
    {
        let is_in = is_text(fd, "in");
        let is_out = is_text(fd, "out");
        proof {
            reveal_strlit("in");
            reveal_strlit("out");
        }
        if !is_in && !is_out {
            return Ok(None);
        }
        let end = if is_in {
            RelationEnd::In
        } else {
            RelationEnd::Out
        };
        // The table is marked as TYPE RELATION
        if let TableType::Relation(relation) = &tb.kind {
            // Check if a field TYPE has been specified
            if let Some(kind) = &self.kind {
                // The field must be a record type
                if !kind.is_record() {
                    return Err(Error::RelationEndNotRecord { end });
                }
                // Add the TYPE to the DEFINE TABLE statement
                let known = match &relation.from {
                    Some(from) => from.equals(kind),
                    None => false,
                };
                if !known {
                    let (from, to) = match end {
                        RelationEnd::In => (Some(kind.duplicate()), copy_kind(&relation.to)),
                        RelationEnd::Out => (copy_kind(&relation.from), Some(kind.duplicate())),
                    };
                    return Ok(
                        Some(
                            DefineTableStatement {
                                id: tb.id,
                                name: tb.name.clone(),
                                drop: tb.drop,
                                full: tb.full,
                                kind: TableType::Relation(
                                    Relation { from, to, enforced: relation.enforced },
                                ),
                                comment: copy_text(&tb.comment),
                                if_not_exists: tb.if_not_exists,
                                overwrite: tb.overwrite,
                            },
                        ),
                    );
                }
            }
        }
        Ok(None)
    }

    /// Decides what the statement writes.
    ///
    /// `exists` tells whether the field is defined, and `kind` is the kind
    /// to store, where it is another than that of the statement. Where the
    /// field is defined, the statement writes nothing if it says
    /// `IF NOT EXISTS`, and fails unless it says `OVERWRITE` or is part of an
    /// import. Otherwise the definition is written, without the clauses that
    /// say what to do where it exists.
    pub fn compute(self, opt: &Options, exists: bool, fd: String, kind: Option<Kind>) -> (r: Result<
        Option<(Key, DefineFieldStatement)>,
        Error,
    >)
        ensures
            if !opt.has_ns_db() {
                r == Err::<Option<(Key, DefineFieldStatement)>, Error>(opt.ns_db_error())
            } else {
                match define_verdict(exists, self.if_not_exists, self.overwrite, opt.import) {
                    Verdict::Keep => r matches Ok(None),
                    Verdict::Refuse => r matches Err(Error::FdAlreadyExists { name }) && name == fd,
                    Verdict::Write => r matches Ok(Some((key, d))) && key@ == fd_key(
                        opt.ns->0@,
                        opt.db->0@,
                        self.what@,
                        fd@,
                    ) && d == (DefineFieldStatement {
                        if_not_exists: false,
                        overwrite: false,
                        kind: if kind is Some {
                            kind
                        } else {
                            self.kind
                        },
                        ..self
                    }),
                }
            },
    {
        // Get the NS and DB
        let (ns, db) = opt.ns_db()?;
        // Check if the definition exists
        if exists {
            if self.if_not_exists {
                return Ok(None);
            } else if !self.overwrite && !opt.import {
                return Err(Error::FdAlreadyExists { name: fd });
            }
        }
        // Process the statement
        let key = crate::key::table::fd::new(ns, db, self.what.as_str(), fd.as_str()).encode_key();
        let stored = match kind {
            Some(kind) => Some(kind),
            None => self.kind,
        };
        Ok(
            Some(
                (
                    key,
                    DefineFieldStatement {
                        // Don't persist the `IF NOT EXISTS` clause to schema
                        if_not_exists: false,
                        overwrite: false,
                        kind: stored,
                        name: self.name,
                        what: self.what,
                        flex: self.flex,
                        readonly: self.readonly,
                        value: self.value,
                        assert: self.assert,
                        default: self.default,
                        permissions: self.permissions,
                        comment: self.comment,
                        reference: self.reference,
                        default_always: self.default_always,
                    },
                ),
            ),
        )
    }
}

} // verus!
