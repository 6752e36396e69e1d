//! When a change seen on the configuration's directory calls for a reload.

use vstd::prelude::*;

verus! {

/// The kind of a file-system change.
#[derive(Clone, Copy, Debug, PartialEq, Eq, Structural)]
pub enum ChangeKind {
    Create,
    Modify,
    Remove,
    Other,
}

/// Whether two optional file names are the same (two absent names are).
pub open spec fn same_name(a: Option<String>, b: Option<String>) -> bool {
    match (a, b) {
        (None, None) => true,
        (Some(x), Some(y)) => x@ == y@,
        _ => false,
    }
}

fn names_equal(a: &Option<String>, b: &Option<String>) -> (r: bool)
    ensures
        r == same_name(*a, *b),
{
    match (a, b) {
        (None, None) => true,
        (Some(x), Some(y)) => *x == *y,
        _ => false,
    }
}

/// A change calls for a reload when it creates or modifies a file with
/// the configuration file's name.
pub fn should_reload(kind: ChangeKind, changed_names: &[Option<String>], config_name: &Option<String>) -> (r: bool)
    ensures
        r == ((kind == ChangeKind::Create || kind == ChangeKind::Modify) && exists|i: int|
            0 <= i < changed_names@.len() && same_name(#[trigger] changed_names@[i], *config_name)),
{
    let mut ours = false;
    let mut i: usize = 0;
    while i < changed_names.len()
        invariant
            i <= changed_names@.len(),
            ours == exists|j: int| 0 <= j < i && same_name(#[trigger] changed_names@[j], *config_name),
        decreases changed_names@.len() - i,
    {
        if names_equal(&changed_names[i], config_name) {
            ours = true;
        }
        i = i + 1;
    }
    ours && (kind == ChangeKind::Create || kind == ChangeKind::Modify)
}

} // verus!
