//! Forms: class-like values combining inherited parent forms, named
//! class-level and instance-level members, and an optional constructor. The
//! builder enforces that no member name is declared twice within its
//! namespace: class-level names (recalls and essences) on the one hand,
//! instance-level names (changes and matter) on the other.

use vstd::prelude::*;
use crate::compiler::{Error, ErrorV, FormMemberKind};
use crate::text::str_eq;
use crate::value::{UserDefined, Value};

verus! {

/// One named function member.
struct NamedJourney {
    name: String,
    journey: UserDefined,
}

/// One named class-level field with its current value.
struct NamedValue {
    name: String,
    value: Value,
}

/// The members of a form.
struct FormInner {
    parents: Vec<Form>,
    recalls: Vec<NamedJourney>,
    essences: Vec<NamedValue>,
    matter_names: Vec<String>,
    changes: Vec<NamedJourney>,
    imitate: Option<UserDefined>,
}

/// A finished form value.
pub struct Form {
    inner: FormInner,
}

/// A form under construction.
pub struct FormBuilder {
    inner: FormInner,
}

/// The mathematical shape of a form or a form under construction: its
/// members, with names as character sequences.
pub struct FormV {
    pub parents: Seq<Form>,
    pub recalls: Seq<(Seq<char>, UserDefined)>,
    pub essences: Seq<(Seq<char>, Value)>,
    pub matter_names: Seq<Seq<char>>,
    pub changes: Seq<(Seq<char>, UserDefined)>,
    pub imitate: Option<UserDefined>,
}

impl FormInner {
    spec fn view(&self) -> FormV {
        FormV {
            parents: self.parents@,
            recalls: Seq::new(
                self.recalls@.len(),
                |i: int| (self.recalls@[i].name@, self.recalls@[i].journey),
            ),
            essences: Seq::new(
                self.essences@.len(),
                |i: int| (self.essences@[i].name@, self.essences@[i].value),
            ),
            matter_names: Seq::new(self.matter_names@.len(), |i: int| self.matter_names@[i]@),
            changes: Seq::new(
                self.changes@.len(),
                |i: int| (self.changes@[i].name@, self.changes@[i].journey),
            ),
            imitate: self.imitate,
        }
    }
}

impl View for Form {
    type V = FormV;

    closed spec fn view(&self) -> FormV {
        self.inner.view()
    }
}

impl View for FormBuilder {
    type V = FormV;

    closed spec fn view(&self) -> FormV {
        self.inner.view()
    }
}

/// Whether a class-level member of this name exists (a recall or an
/// essence).
pub open spec fn spec_form_key_exists(f: FormV, key: Seq<char>) -> bool {
    (exists|i: int| 0 <= i < f.recalls.len() && f.recalls[i].0 == key) || (exists|i: int|
        0 <= i < f.essences.len() && f.essences[i].0 == key)
}

/// Whether an instance-level member of this name exists (a change or a
/// matter field).
pub open spec fn spec_imitation_key_exists(f: FormV, key: Seq<char>) -> bool {
    (exists|i: int| 0 <= i < f.changes.len() && f.changes[i].0 == key) || (exists|i: int|
        0 <= i < f.matter_names.len() && f.matter_names[i] == key)
}

impl FormBuilder {
    /// A builder with no members.
    pub fn new() -> (r: Self)
        ensures
            r@ == (FormV {
                parents: Seq::<Form>::empty(),
                recalls: Seq::<(Seq<char>, UserDefined)>::empty(),
                essences: Seq::<(Seq<char>, Value)>::empty(),
                matter_names: Seq::<Seq<char>>::empty(),
                changes: Seq::<(Seq<char>, UserDefined)>::empty(),
                imitate: Option::<UserDefined>::None,
            }),
    {
        let r = FormBuilder {
            inner: FormInner {
                parents: Vec::new(),
                recalls: Vec::new(),
                essences: Vec::new(),
                matter_names: Vec::new(),
                changes: Vec::new(),
                imitate: Option::None,
            },
        };
        proof {
            assert(r@.parents =~= Seq::<Form>::empty());
            assert(r@.recalls =~= Seq::<(Seq<char>, UserDefined)>::empty());
            assert(r@.essences =~= Seq::<(Seq<char>, Value)>::empty());
            assert(r@.matter_names =~= Seq::<Seq<char>>::empty());
            assert(r@.changes =~= Seq::<(Seq<char>, UserDefined)>::empty());
        }
        r
    }

    /// Decide whether a class-level member of this name exists.
    fn form_key_exists(&self, key: &str) -> (r: bool)
        ensures
            r == spec_form_key_exists(self@, key@),
    {
        let mut i: usize = 0;
        while i < self.inner.recalls.len()
            invariant
                i <= self.inner.recalls.len(),
                forall|j: int| 0 <= j < i as int ==> self@.recalls[j].0 != key@,
            decreases self.inner.recalls.len() - i,
        {
            if str_eq(self.inner.recalls[i].name.as_str(), key) {
                proof {
                    assert(self@.recalls[i as int].0 == key@);
                }
                return true;
            }
            i = i + 1;
        }
        let mut j: usize = 0;
        while j < self.inner.essences.len()
            invariant
                j <= self.inner.essences.len(),
                forall|k: int| 0 <= k < j as int ==> self@.essences[k].0 != key@,
                forall|k: int| 0 <= k < self@.recalls.len() ==> self@.recalls[k].0 != key@,
            decreases self.inner.essences.len() - j,
        {
            if str_eq(self.inner.essences[j].name.as_str(), key) {
                proof {
                    assert(self@.essences[j as int].0 == key@);
                }
                return true;
            }
            j = j + 1;
        }
        false
    }

    /// Decide whether an instance-level member of this name exists.
    fn imitation_key_exists(&self, key: &str) -> (r: bool)
        ensures
            r == spec_imitation_key_exists(self@, key@),
    {
        let mut i: usize = 0;
        while i < self.inner.changes.len()
            invariant
                i <= self.inner.changes.len(),
                forall|j: int| 0 <= j < i as int ==> self@.changes[j].0 != key@,
            decreases self.inner.changes.len() - i,
        {
            if str_eq(self.inner.changes[i].name.as_str(), key) {
                proof {
                    assert(self@.changes[i as int].0 == key@);
                }
                return true;
            }
            i = i + 1;
        }
        let mut j: usize = 0;
        while j < self.inner.matter_names.len()
            invariant
                j <= self.inner.matter_names.len(),
                forall|k: int| 0 <= k < j as int ==> self@.matter_names[k] != key@,
                forall|k: int| 0 <= k < self@.changes.len() ==> self@.changes[k].0 != key@,
            decreases self.inner.matter_names.len() - j,
        {
            if str_eq(self.inner.matter_names[j].as_str(), key) {
                proof {
                    assert(self@.matter_names[j as int] == key@);
                }
                return true;
            }
            j = j + 1;
        }
        false
    }

    /// Add an inherited parent form. Parents may repeat; no deduplication is
    /// performed.
    pub fn add_parent(&mut self, parent: Form)
        ensures
            final(self)@ == (FormV { parents: old(self)@.parents.push(parent), ..old(self)@ }),
    {
        self.inner.parents.push(parent);
        proof {
            assert(self@.recalls =~= old(self)@.recalls);
            assert(self@.essences =~= old(self)@.essences);
            assert(self@.matter_names =~= old(self)@.matter_names);
            assert(self@.changes =~= old(self)@.changes);
        }
    }

    /// Add a class-level function. Fails exactly when a class-level member
    /// of the same name already exists.
    pub fn add_recall(&mut self, recall: UserDefined) -> (r: Result<(), Error>)
        ensures
            ({
                if spec_form_key_exists(old(self)@, recall@.name) {
                    final(self)@ == old(self)@ && (match r {
                        Result::Err(e) => e@ == ErrorV::FormValueAlreadyDefined(
                            recall@.name,
                            FormMemberKind::Recall,
                        ),
                        Result::Ok(()) => false,
                    })
                } else {
                    r is Ok && final(self)@ == (FormV {
                        recalls: old(self)@.recalls.push((recall@.name, recall)),
                        ..old(self)@
                    })
                }
            }),
    {
        let name: String = recall.name().to_owned();
        if self.form_key_exists(name.as_str()) {
            Result::Err(Error::FormValueAlreadyDefined { name, kind: FormMemberKind::Recall })
        } else {
            self.inner.recalls.push(NamedJourney { name, journey: recall });
            proof {
                assert(self@.recalls =~= old(self)@.recalls.push((recall@.name, recall)));
                assert(self@.essences =~= old(self)@.essences);
                assert(self@.matter_names =~= old(self)@.matter_names);
                assert(self@.changes =~= old(self)@.changes);
            }
            Result::Ok(())
        }
    }

    /// Declare a class-level field, starting out null. Fails exactly when a
    /// class-level member of the same name already exists.
    pub fn add_essence(&mut self, name: String) -> (r: Result<(), Error>)
        ensures
            ({
                if spec_form_key_exists(old(self)@, name@) {
                    final(self)@ == old(self)@ && (match r {
                        Result::Err(e) => e@ == ErrorV::FormValueAlreadyDefined(
                            name@,
                            FormMemberKind::Essence,
                        ),
                        Result::Ok(()) => false,
                    })
                } else {
                    r is Ok && final(self)@ == (FormV {
                        essences: old(self)@.essences.push((name@, Value::Ni)),
                        ..old(self)@
                    })
                }
            }),
    {
        if self.form_key_exists(name.as_str()) {
            Result::Err(Error::FormValueAlreadyDefined { name, kind: FormMemberKind::Essence })
        } else {
            self.inner.essences.push(NamedValue { name, value: Value::Ni });
            proof {
                assert(self@.essences =~= old(self)@.essences.push((name@, Value::Ni)));
                assert(self@.recalls =~= old(self)@.recalls);
                assert(self@.matter_names =~= old(self)@.matter_names);
                assert(self@.changes =~= old(self)@.changes);
            }
            Result::Ok(())
        }
    }

    /// Declare an instance field name. Fails exactly when an instance-level
    /// member of the same name already exists.
    pub fn add_matter(&mut self, name: String) -> (r: Result<(), Error>)
        ensures
            ({
                if spec_imitation_key_exists(old(self)@, name@) {
                    final(self)@ == old(self)@ && (match r {
                        Result::Err(e) => e@ == ErrorV::FormValueAlreadyDefined(
                            name@,
                            FormMemberKind::Matter,
                        ),
                        Result::Ok(()) => false,
                    })
                } else {
                    r is Ok && final(self)@ == (FormV {
                        matter_names: old(self)@.matter_names.push(name@),
                        ..old(self)@
                    })
                }
            }),
    {
        if self.imitation_key_exists(name.as_str()) {
            Result::Err(Error::FormValueAlreadyDefined { name, kind: FormMemberKind::Matter })
        } else {
            self.inner.matter_names.push(name);
            proof {
                assert(self@.matter_names =~= old(self)@.matter_names.push(name@));
                assert(self@.recalls =~= old(self)@.recalls);
                assert(self@.essences =~= old(self)@.essences);
                assert(self@.changes =~= old(self)@.changes);
            }
            Result::Ok(())
        }
    }

    /// Add an instance method. Fails exactly when an instance-level member
    /// of the same name already exists.
    pub fn add_change(&mut self, change: UserDefined) -> (r: Result<(), Error>)
        ensures
            ({
                if spec_imitation_key_exists(old(self)@, change@.name) {
                    final(self)@ == old(self)@ && (match r {
                        Result::Err(e) => e@ == ErrorV::FormValueAlreadyDefined(
                            change@.name,
                            FormMemberKind::Change,
                        ),
                        Result::Ok(()) => false,
                    })
                } else {
                    r is Ok && final(self)@ == (FormV {
                        changes: old(self)@.changes.push((change@.name, change)),
                        ..old(self)@
                    })
                }
            }),
    {
        let name: String = change.name().to_owned();
        if self.imitation_key_exists(name.as_str()) {
            Result::Err(Error::FormValueAlreadyDefined { name, kind: FormMemberKind::Change })
        } else {
            self.inner.changes.push(NamedJourney { name, journey: change });
            proof {
                assert(self@.changes =~= old(self)@.changes.push((change@.name, change)));
                assert(self@.recalls =~= old(self)@.recalls);
                assert(self@.essences =~= old(self)@.essences);
                assert(self@.matter_names =~= old(self)@.matter_names);
            }
            Result::Ok(())
        }
    }

    /// Set the constructor. Fails exactly when one is already set.
    pub fn add_imitate(&mut self, imitate: UserDefined) -> (r: Result<(), Error>)
        ensures
            ({
                if old(self)@.imitate is Some {
                    final(self)@ == old(self)@ && (match r {
                        Result::Err(e) => e@ == ErrorV::FormValueAlreadyDefined(
                            "imitate"@,
                            FormMemberKind::Imitate,
                        ),
                        Result::Ok(()) => false,
                    })
                } else {
                    r is Ok && final(self)@ == (FormV {
                        imitate: Option::Some(imitate),
                        ..old(self)@
                    })
                }
            }),
    {
        if self.inner.imitate.is_some() {
            let name: String = "imitate".to_owned();
            Result::Err(Error::FormValueAlreadyDefined { name, kind: FormMemberKind::Imitate })
        } else {
            self.inner.imitate = Option::Some(imitate);
            proof {
                assert(self@.recalls =~= old(self)@.recalls);
                assert(self@.essences =~= old(self)@.essences);
                assert(self@.matter_names =~= old(self)@.matter_names);
                assert(self@.changes =~= old(self)@.changes);
            }
            Result::Ok(())
        }
    }

    /// Freeze the builder into a finished form.
    pub fn build(self) -> (r: Form)
        ensures
            r@ == self@,
    {
        Form { inner: self.inner }
    }
}

} // verus!
