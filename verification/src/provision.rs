//! Reading the outcome of creating the log group or the log stream at the sink.

use vstd::prelude::*;
use vstd::string::StringSliceAdditionalSpecFns;

verus! {

/// How an attempt to create the log group or the log stream ended.
#[derive(Clone, Copy, Debug, PartialEq, Eq, Structural)]
pub enum ProvisionOutcome {
    /// The sink created it.
    Created,
    /// It was there already, which is as good as created.
    AlreadyExists,
    /// The sink failed for another reason. The pipeline goes on all the same.
    Failed,
}

/// `needle` stands in `haystack` at offset `at`.
pub open spec fn occurs_at(haystack: Seq<u8>, needle: Seq<u8>, at: int) -> bool {
    0 <= at && at + needle.len() <= haystack.len() && haystack.subrange(
        at,
        at + needle.len(),
    ) == needle
}

/// `needle` stands somewhere in `haystack`.
pub open spec fn contains_bytes(haystack: Seq<u8>, needle: Seq<u8>) -> bool {
    exists|at: int| occurs_at(haystack, needle, at)
}

/// The name by which the sink reports that what was to be created exists already.
pub open spec fn already_exists_marker() -> Seq<u8> {
    "ResourceAlreadyExistsException".spec_bytes()
}

/// The outcome that an error message stands for, `None` being a call without error.
pub open spec fn outcome_of(error: Option<Seq<u8>>) -> ProvisionOutcome {
    match error {
        None => ProvisionOutcome::Created,
        Some(message) => if contains_bytes(message, already_exists_marker()) {
            ProvisionOutcome::AlreadyExists
        } else {
            ProvisionOutcome::Failed
        },
    }
}

/// The outcome leaves what was to be created in place.
pub open spec fn succeeded(outcome: ProvisionOutcome) -> bool {
    outcome != ProvisionOutcome::Failed
}

/// Creating twice is as good as creating once: the first creation, which ends
/// without error, and a later one, whose error names the existing resource, both
/// count as success, whatever else the error's message holds.
pub proof fn lemma_repeated_creation_succeeds(message: Seq<u8>)
    requires
        contains_bytes(message, already_exists_marker()),
    ensures
        succeeded(outcome_of(None)),
        succeeded(outcome_of(Some(message))),
{
}

/// Whether `needle` stands in `haystack` at offset `at`.
fn matches_at(haystack: &[u8], needle: &[u8], at: usize) -> (matches: bool)
    requires
        at + needle@.len() <= haystack@.len(),
    ensures
        matches == occurs_at(haystack@, needle@, at as int),
{
    let length: usize = needle.len();
    let available: usize = haystack.len();
    let mut checked: usize = 0;
    while checked < length
        invariant
            length == needle@.len(),
            available == haystack@.len(),
            checked <= length,
            at + length <= available,
            forall|k: int| 0 <= k < checked ==> haystack@[at + k] == needle@[k],
        decreases length - checked,
    {
        if haystack[at + checked] != needle[checked] {
            assert(haystack@.subrange(at as int, at + needle@.len())[checked as int]
                != needle@[checked as int]);
            return false;
        }
        checked = checked + 1;
    }
    assert(haystack@.subrange(at as int, at + needle@.len()) =~= needle@);
    true
}

/// Whether `needle` stands somewhere in `haystack`.
pub fn contains_subslice(haystack: &[u8], needle: &[u8]) -> (found: bool)
    ensures
        found == contains_bytes(haystack@, needle@),
{
    if needle.len() > haystack.len() {
        return false;
    }
    let last = haystack.len() - needle.len();
    let mut at: usize = 0;
    loop
        invariant
            last == haystack@.len() - needle@.len(),
            at <= last,
            forall|k: int| 0 <= k < at ==> !occurs_at(haystack@, needle@, k),
        decreases last - at,
    {
        if matches_at(haystack, needle, at) {
            return true;
        }
        if at == last {
            return false;
        }
        at = at + 1;
    }
}

/// Reads the outcome of a creation from the error that the sink gave for it,
/// `None` where it gave none: an error that names the existing resource counts
/// as success, any other as a failure.
pub fn provision_outcome(error: Option<&str>) -> (outcome: ProvisionOutcome)
    ensures
        outcome == outcome_of(
            match error {
                Some(message) => Some(message.spec_bytes()),
                None => None,
            },
        ),
{
    match error {
        None => ProvisionOutcome::Created,
        Some(message) => {
            if contains_subslice(message.as_bytes(), "ResourceAlreadyExistsException".as_bytes()) {
                ProvisionOutcome::AlreadyExists
            } else {
                ProvisionOutcome::Failed
            }
        },
    }
}

impl ProvisionOutcome {
    /// Whether what was to be created is there: a second creation, which finds it
    /// there already, succeeds as the first did.
    pub fn is_success(&self) -> (success: bool)
        ensures
            success == succeeded(*self),
    {
        match self {
            ProvisionOutcome::Created => true,
            ProvisionOutcome::AlreadyExists => true,
            ProvisionOutcome::Failed => false,
        }
    }
}

} // verus!
