//! Version constraints on dependencies.
//!
//! A constraint pairs one of the five comparison operators with a version
//! string; a candidate version satisfies it when the three-way Debian-style
//! comparison of the candidate against the constraint's version agrees with
//! the operator.

use vstd::prelude::*;

verus! {

/// The Debian-style three-way ordering of two version strings, as the
/// deb-version crate computes it: a function of the two strings alone.
pub uninterp spec fn version_cmp(left: Seq<char>, right: Seq<char>) -> core::cmp::Ordering;

/// Relies on deb_version::compare_versions: Debian version ordering
/// (epoch, upstream, revision; numeric and alphabetic run splitting; tilde
/// before everything) of the two strings alone. Its run splitter counts
/// characters but slices bytes, so the call is only safe on text where the
/// two agree: both strings must be ASCII, as Debian version strings are.
pub assume_specification[ deb_version::compare_versions ](left: &str, right: &str) -> (r:
    core::cmp::Ordering)
    requires
        left.is_ascii(),
        right.is_ascii(),
    ensures
        r == version_cmp(left@, right@),
;

/// The closed set of comparison operators a dependency may carry.
#[derive(Clone, Copy, Debug, PartialEq, Eq, Structural)]
pub enum ConstraintOperator {
    Ge,
    Eq,
    Le,
    Gt,
    Lt,
}

impl ConstraintOperator {
    /// Whether a three-way comparison outcome satisfies this operator.
    pub open spec fn accepts(self, ordering: core::cmp::Ordering) -> bool {
        match self {
            ConstraintOperator::Eq => ordering is Equal,
            ConstraintOperator::Ge => !(ordering is Less),
            ConstraintOperator::Le => !(ordering is Greater),
            ConstraintOperator::Lt => ordering is Less,
            ConstraintOperator::Gt => ordering is Greater,
        }
    }

    /// Evaluates the operator against a three-way comparison outcome.
    pub fn satisfied_by(&self, ordering: core::cmp::Ordering) -> (r: bool)
        ensures
            r == self.accepts(ordering),
    {
        match *self {
            ConstraintOperator::Eq => matches!(ordering, core::cmp::Ordering::Equal),
            ConstraintOperator::Ge => !matches!(ordering, core::cmp::Ordering::Less),
            ConstraintOperator::Le => !matches!(ordering, core::cmp::Ordering::Greater),
            ConstraintOperator::Lt => matches!(ordering, core::cmp::Ordering::Less),
            ConstraintOperator::Gt => matches!(ordering, core::cmp::Ordering::Greater),
        }
    }
}

/// The mathematical image of a constraint.
#[verifier::ext_equal]
pub struct ConstraintView {
    pub version: Seq<char>,
    pub operator: ConstraintOperator,
}

/// One version constraint: an operator and the version it compares against.
#[derive(Clone, Debug, PartialEq, Eq)]
pub struct Constraint {
    pub version: String,
    pub operator: ConstraintOperator,
}

impl View for Constraint {
    type V = ConstraintView;

    open spec fn view(&self) -> ConstraintView {
        ConstraintView { version: self.version@, operator: self.operator }
    }
}

impl DeepView for Constraint {
    type V = ConstraintView;

    open spec fn deep_view(&self) -> ConstraintView {
        self.view()
    }
}

impl Constraint {
    /// Builds a constraint from an operator and a version string.
    pub fn new(operator: ConstraintOperator, version: &str) -> (r: Constraint)
        ensures
            r.operator == operator,
            r.version@ == version@,
    {
        Constraint { operator, version: version.to_owned() }
    }

    /// Whether a candidate version satisfies this constraint: the Debian
    /// three-way comparison of the candidate against the constraint's
    /// version, evaluated under the constraint's operator. The comparison
    /// is defined for ASCII text only — Debian version strings are ASCII —
    /// and would die inside a character elsewhere, so non-ASCII input is
    /// left out here; `check_satisfied_by` decides it for any input.
    pub fn satisfied_by(&self, version: &str) -> (r: bool)
        requires
            version.is_ascii(),
            self.version.is_ascii(),
        ensures
            r == self.operator.accepts(version_cmp(version@, self.version@)),
    {
        let ordering = deb_version::compare_versions(version, self.version.as_str());
        self.operator.satisfied_by(ordering)
    }

    /// Decides the constraint for any candidate at all: the comparison's
    /// verdict where both version strings are ASCII, and nothing where
    /// either is not.
    pub fn check_satisfied_by(&self, version: &str) -> (r: Option<bool>)
        ensures
            match r {
                Some(b) => version.is_ascii() && self.version.is_ascii() && b
                    == self.operator.accepts(version_cmp(version@, self.version@)),
                None => !version.is_ascii() || !self.version.is_ascii(),
            },
    {
        if version.is_ascii() && self.version.is_ascii() {
            Some(self.satisfied_by(version))
        } else {
            None
        }
    }
}

} // verus!
