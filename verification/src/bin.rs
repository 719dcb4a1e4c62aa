//! The installable half of the package model.
//!
//! A record without a field naming produced binaries describes one
//! installable binary package: its flags, description, back-references
//! and the full set of dependency relations.

use vstd::prelude::*;

use crate::ParseError;
use crate::deps::Dependency;
use crate::deps::DependencyView;
use crate::pkg::File;
use crate::pkg::FileV;
use crate::pkg::dep_field_err;
use crate::pkg::dep_field_spec;
use crate::pkg::flag_err;
use crate::pkg::flag_spec;
use crate::pkg::opt_line_spec;
use crate::pkg::size_err;
use crate::pkg::size_spec;
use crate::pkg::take_dep_field;
use crate::pkg::take_flag;
use crate::pkg::take_size;
use crate::rfc822::FieldView;
use crate::rfc822::Paragraph;
use crate::rfc822::has_key;
use crate::rfc822::joined;
use crate::rfc822::joined_spec;
use crate::rfc822::lines_for;
use crate::rfc822::without_key;

verus! {

/// The mathematical image of a binary package.
#[verifier::ext_equal]
pub struct BinaryV {
    pub file: Option<FileV>,
    pub essential: bool,
    pub build_essential: bool,
    pub installed_size: u64,
    pub description: Seq<char>,
    pub source: Option<Seq<char>>,
    pub status: Option<Seq<char>>,
    pub depends: Seq<DependencyView>,
    pub recommended: Seq<DependencyView>,
    pub suggests: Seq<DependencyView>,
    pub enhances: Seq<DependencyView>,
    pub pre_depends: Seq<DependencyView>,
    pub breaks: Seq<DependencyView>,
    pub conflicts: Seq<DependencyView>,
    pub replaces: Seq<DependencyView>,
    pub provides: Seq<DependencyView>,
}

/// One installable binary package. The file descriptor is absent in some
/// status files, and the installed size defaults to zero where a record
/// omits it.
#[derive(Clone, Debug, PartialEq, Eq)]
pub struct Binary {
    pub file: Option<File>,
    pub essential: bool,
    pub build_essential: bool,
    pub installed_size: u64,
    pub description: String,
    pub source: Option<String>,
    pub status: Option<String>,
    pub depends: Vec<Dependency>,
    pub recommended: Vec<Dependency>,
    pub suggests: Vec<Dependency>,
    pub enhances: Vec<Dependency>,
    pub pre_depends: Vec<Dependency>,
    pub breaks: Vec<Dependency>,
    pub conflicts: Vec<Dependency>,
    pub replaces: Vec<Dependency>,
    pub provides: Vec<Dependency>,
}

impl View for Binary {
    type V = BinaryV;

    open spec fn view(&self) -> BinaryV {
        BinaryV {
            file: self.file.deep_view(),
            essential: self.essential,
            build_essential: self.build_essential,
            installed_size: self.installed_size,
            description: self.description@,
            source: self.source.deep_view(),
            status: self.status.deep_view(),
            depends: self.depends.deep_view(),
            recommended: self.recommended.deep_view(),
            suggests: self.suggests.deep_view(),
            enhances: self.enhances.deep_view(),
            pre_depends: self.pre_depends.deep_view(),
            breaks: self.breaks.deep_view(),
            conflicts: self.conflicts.deep_view(),
            replaces: self.replaces.deep_view(),
            provides: self.provides.deep_view(),
        }
    }
}

impl DeepView for Binary {
    type V = BinaryV;

    open spec fn deep_view(&self) -> BinaryV {
        self.view()
    }
}

/// The required multi-line description field: its lines joined with
/// newlines, and the record without it.
pub open spec fn desc_spec(m: Seq<FieldView>, key: Seq<char>) -> Option<
    (Seq<char>, Seq<FieldView>),
> {
    if has_key(m, key) {
        Some((joined_spec(lines_for(m, key)), without_key(m, key)))
    } else {
        None
    }
}

/// What parsing the binary fields of a record yields: the binary package
/// and the fields left over, or nothing when any field is malformed.
pub open spec fn parse_bin_spec(m: Seq<FieldView>) -> Option<(BinaryV, Seq<FieldView>)> {
    match size_spec(m, "Installed-Size"@) {
        None => None,
        Some((installed_size, m1)) => match flag_spec(m1, "Essential"@) {
            None => None,
            Some((essential, m2)) => match flag_spec(m2, "Build-Essential"@) {
                None => None,
                Some((build_essential, m3)) => match desc_spec(m3, "Description"@) {
                    None => None,
                    Some((description, m4)) => match opt_line_spec(m4, "Source"@) {
                        None => None,
                        Some((source, m5)) => match opt_line_spec(m5, "Status"@) {
                            None => None,
                            Some((status, m6)) => match dep_field_spec(m6, "Depends"@) {
                                None => None,
                                Some((depends, m7)) => match dep_field_spec(m7, "Recommends"@) {
                                    None => None,
                                    Some((recommended, m8)) => match dep_field_spec(
                                        m8,
                                        "Suggests"@,
                                    ) {
                                        None => None,
                                        Some((suggests, m9)) => match dep_field_spec(
                                            m9,
                                            "Enhances"@,
                                        ) {
                                            None => None,
                                            Some((enhances, m10)) => match dep_field_spec(
                                                m10,
                                                "Pre-Depends"@,
                                            ) {
                                                None => None,
                                                Some((pre_depends, m11)) => match dep_field_spec(
                                                    m11,
                                                    "Breaks"@,
                                                ) {
                                                    None => None,
                                                    Some((breaks, m12)) => match dep_field_spec(
                                                        m12,
                                                        "Conflicts"@,
                                                    ) {
                                                        None => None,
                                                        Some(
                                                            (conflicts, m13),
                                                        ) => match dep_field_spec(
                                                            m13,
                                                            "Replaces"@,
                                                        ) {
                                                            None => None,
                                                            Some(
                                                                (replaces, m14),
                                                            ) => match dep_field_spec(
                                                                m14,
                                                                "Provides"@,
                                                            ) {
                                                                None => None,
                                                                Some((provides, m15)) => Some(
                                                                    (
                                                                        BinaryV {
                                                                            file: None,
                                                                            essential,
                                                                            build_essential,
                                                                            installed_size,
                                                                            description,
                                                                            source,
                                                                            status,
                                                                            depends,
                                                                            recommended,
                                                                            suggests,
                                                                            enhances,
                                                                            pre_depends,
                                                                            breaks,
                                                                            conflicts,
                                                                            replaces,
                                                                            provides,
                                                                        },
                                                                        m15,
                                                                    ),
                                                                ),
                                                            },
                                                        },
                                                    },
                                                },
                                            },
                                        },
                                    },
                                },
                            },
                        },
                    },
                },
            },
        },
    }
}

/// The error the binary parse reports for a record, paired with the
/// first failing step of the field chain.
pub open spec fn parse_bin_err(m: Seq<FieldView>, e: ParseError) -> bool {
    match size_spec(m, "Installed-Size"@) {
        None => size_err(m, "Installed-Size"@, e),
        Some((_, m1)) => match flag_spec(m1, "Essential"@) {
            None => flag_err(m1, "Essential"@, e),
            Some((_, m2)) => match flag_spec(m2, "Build-Essential"@) {
                None => flag_err(m2, "Build-Essential"@, e),
                Some((_, m3)) => match desc_spec(m3, "Description"@) {
                    None => e matches ParseError::MissingField { key } && key@ == "Description"@,
                    Some((_, m4)) => match opt_line_spec(m4, "Source"@) {
                        None => e matches ParseError::WrongLineCount { key } && key@
                            == "Source"@,
                        Some((_, m5)) => match opt_line_spec(m5, "Status"@) {
                            None => e matches ParseError::WrongLineCount { key } && key@
                                == "Status"@,
                            Some((_, m6)) => match dep_field_spec(m6, "Depends"@) {
                                None => dep_field_err(m6, "Depends"@, e),
                                Some((_, m7)) => match dep_field_spec(m7, "Recommends"@) {
                                    None => dep_field_err(m7, "Recommends"@, e),
                                    Some((_, m8)) => match dep_field_spec(m8, "Suggests"@) {
                                        None => dep_field_err(m8, "Suggests"@, e),
                                        Some((_, m9)) => match dep_field_spec(m9, "Enhances"@) {
                                            None => dep_field_err(m9, "Enhances"@, e),
                                            Some((_, m10)) => match dep_field_spec(
                                                m10,
                                                "Pre-Depends"@,
                                            ) {
                                                None => dep_field_err(m10, "Pre-Depends"@, e),
                                                Some((_, m11)) => match dep_field_spec(
                                                    m11,
                                                    "Breaks"@,
                                                ) {
                                                    None => dep_field_err(m11, "Breaks"@, e),
                                                    Some((_, m12)) => match dep_field_spec(
                                                        m12,
                                                        "Conflicts"@,
                                                    ) {
                                                        None => dep_field_err(
                                                            m12,
                                                            "Conflicts"@,
                                                            e,
                                                        ),
                                                        Some((_, m13)) => match dep_field_spec(
                                                            m13,
                                                            "Replaces"@,
                                                        ) {
                                                            None => dep_field_err(
                                                                m13,
                                                                "Replaces"@,
                                                                e,
                                                            ),
                                                            Some(
                                                                (_, m14),
                                                            ) => match dep_field_spec(
                                                                m14,
                                                                "Provides"@,
                                                            ) {
                                                                None => dep_field_err(
                                                                    m14,
                                                                    "Provides"@,
                                                                    e,
                                                                ),
                                                                Some(_) => false,
                                                            },
                                                        },
                                                    },
                                                },
                                            },
                                        },
                                    },
                                },
                            },
                        },
                    },
                },
            },
        },
    }
}

/// Parses the binary fields of a record, consuming them; what stays in
/// the record is whatever the binary parse does not know. A failure
/// carries the first failing field's own error.
pub fn parse_bin(map: &mut Paragraph) -> (r: Result<Binary, ParseError>)
    ensures
        match r {
            Ok(bin) => parse_bin_spec(old(map)@) == Some((bin@, final(map)@)),
            Err(e) => parse_bin_spec(old(map)@) is None && parse_bin_err(old(map)@, e),
        },
{
    let installed_size = match take_size(map, "Installed-Size") {
        Ok(v) => v,
        Err(e) => {
            return Err(e);
        },
    };
    let essential = match take_flag(map, "Essential") {
        Ok(v) => v,
        Err(e) => {
            return Err(e);
        },
    };
    let build_essential = match take_flag(map, "Build-Essential") {
        Ok(v) => v,
        Err(e) => {
            return Err(e);
        },
    };
    let description = match map.take_all("Description") {
        Ok(lines) => joined(&lines),
        Err(e) => {
            return Err(e);
        },
    };
    let source = match map.remove_one_line("Source") {
        Ok(v) => v,
        Err(e) => {
            return Err(e);
        },
    };
    let status = match map.remove_one_line("Status") {
        Ok(v) => v,
        Err(e) => {
            return Err(e);
        },
    };
    let depends = match take_dep_field(map, "Depends") {
        Ok(v) => v,
        Err(e) => {
            return Err(e);
        },
    };
    let recommended = match take_dep_field(map, "Recommends") {
        Ok(v) => v,
        Err(e) => {
            return Err(e);
        },
    };
    let suggests = match take_dep_field(map, "Suggests") {
        Ok(v) => v,
        Err(e) => {
            return Err(e);
        },
    };
    let enhances = match take_dep_field(map, "Enhances") {
        Ok(v) => v,
        Err(e) => {
            return Err(e);
        },
    };
    let pre_depends = match take_dep_field(map, "Pre-Depends") {
        Ok(v) => v,
        Err(e) => {
            return Err(e);
        },
    };
    let breaks = match take_dep_field(map, "Breaks") {
        Ok(v) => v,
        Err(e) => {
            return Err(e);
        },
    };
    let conflicts = match take_dep_field(map, "Conflicts") {
        Ok(v) => v,
        Err(e) => {
            return Err(e);
        },
    };
    let replaces = match take_dep_field(map, "Replaces") {
        Ok(v) => v,
        Err(e) => {
            return Err(e);
        },
    };
    let provides = match take_dep_field(map, "Provides") {
        Ok(v) => v,
        Err(e) => {
            return Err(e);
        },
    };
    Ok(
        Binary {
            file: None,
            essential,
            build_essential,
            installed_size,
            description,
            source,
            status,
            depends,
            recommended,
            suggests,
            enhances,
            pre_depends,
            breaks,
            conflicts,
            replaces,
            provides,
        },
    )
}

} // verus!
