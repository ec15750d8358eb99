//! Records and packages.
//!
//! A [`TransientRecord`] stands for one record as a cursor exposes it: a
//! view that is only good until the owning iterator advances. A [`Package`]
//! is the owned copy a caller keeps: materializing copies every field, so
//! the package has no remaining relationship to any iterator or cursor.

use vstd::prelude::*;

verus! {

/// The mathematical image of one record's fields.
pub ghost struct FieldsView {
    /// The package name.
    pub name: Seq<char>,
    /// The package version.
    pub version: Seq<char>,
    /// The package license.
    pub license: Seq<char>,
    /// The one-line summary.
    pub summary: Seq<char>,
    /// The long description.
    pub description: Seq<char>,
    /// The names this package provides.
    pub provide_names: Seq<Seq<char>>,
    /// The files this package installed.
    pub installed_filenames: Seq<Seq<char>>,
}

/// The views of a sequence of strings.
pub open spec fn views_of_strings(strings: Seq<String>) -> Seq<Seq<char>> {
    strings.map_values(|s: String| s@)
}

/// One record as the current cursor position exposes it, decoded into plain
/// values. A value of this type is only as good as its iterator's current
/// position: copy it out with [`TransientRecord::to_package`] before the
/// iterator advances.
pub struct TransientRecord {
    /// The package name.
    pub name: String,
    /// The package version.
    pub version: String,
    /// The package license.
    pub license: String,
    /// The one-line summary.
    pub summary: String,
    /// The long description.
    pub description: String,
    /// The names this package provides.
    pub provide_names: Vec<String>,
    /// The files this package installed.
    pub installed_filenames: Vec<String>,
}

impl View for TransientRecord {
    type V = FieldsView;

    open spec fn view(&self) -> FieldsView {
        FieldsView {
            name: self.name@,
            version: self.version@,
            license: self.license@,
            summary: self.summary@,
            description: self.description@,
            provide_names: views_of_strings(self.provide_names@),
            installed_filenames: views_of_strings(self.installed_filenames@),
        }
    }
}

/// One package as an owned, independent value: every field copied out of a
/// record, with no remaining relationship to any iterator.
pub struct Package {
    /// The package name.
    pub name: String,
    /// The package version.
    pub version: String,
    /// The package license.
    pub license: String,
    /// The one-line summary.
    pub summary: String,
    /// The long description.
    pub description: String,
    /// The names this package provides.
    pub provide_names: Vec<String>,
    /// The files this package installed.
    pub installed_filenames: Vec<String>,
}

impl View for Package {
    type V = FieldsView;

    open spec fn view(&self) -> FieldsView {
        FieldsView {
            name: self.name@,
            version: self.version@,
            license: self.license@,
            summary: self.summary@,
            description: self.description@,
            provide_names: views_of_strings(self.provide_names@),
            installed_filenames: views_of_strings(self.installed_filenames@),
        }
    }
}

/// An elementwise copy of a vector of strings.
fn clone_string_vec(v: &Vec<String>) -> (r: Vec<String>)
    ensures
        r@ == v@,
{
    let mut r: Vec<String> = Vec::new();
    let mut i: usize = 0;
    while i < v.len()
        invariant
            0 <= i <= v@.len(),
            r@.len() == i,
            forall|k: int| 0 <= k < i ==> r@[k] == v@[k],
        decreases v@.len() - i,
    {
        r.push(v[i].clone());
        i = i + 1;
    }
    proof {
        assert(r@ =~= v@);
    }
    r
}

impl TransientRecord {
    /// Materialize this record into an owned [`Package`]: a pure field-for-
    /// field copy, after which the package is independent of every iterator.
    pub fn to_package(&self) -> (p: Package)
        ensures
            p@ == self@,
    {
        Package {
            name: self.name.clone(),
            version: self.version.clone(),
            license: self.license.clone(),
            summary: self.summary.clone(),
            description: self.description.clone(),
            provide_names: clone_string_vec(&self.provide_names),
            installed_filenames: clone_string_vec(&self.installed_filenames),
        }
    }

    /// An owned copy of the record itself, field for field.
    pub fn copy_record(&self) -> (r: TransientRecord)
        ensures
            r@ == self@,
    {
        TransientRecord {
            name: self.name.clone(),
            version: self.version.clone(),
            license: self.license.clone(),
            summary: self.summary.clone(),
            description: self.description.clone(),
            provide_names: clone_string_vec(&self.provide_names),
            installed_filenames: clone_string_vec(&self.installed_filenames),
        }
    }
}

impl Package {
    /// The package name.
    pub fn name(&self) -> (r: &String)
        ensures
            r@ == self@.name,
    {
        &self.name
    }

    /// The package version.
    pub fn version(&self) -> (r: &String)
        ensures
            r@ == self@.version,
    {
        &self.version
    }

    /// The package license.
    pub fn license(&self) -> (r: &String)
        ensures
            r@ == self@.license,
    {
        &self.license
    }

    /// The one-line summary.
    pub fn summary(&self) -> (r: &String)
        ensures
            r@ == self@.summary,
    {
        &self.summary
    }

    /// The long description.
    pub fn description(&self) -> (r: &String)
        ensures
            r@ == self@.description,
    {
        &self.description
    }
}

} // verus!
