//! The typed package model and its record parse.
//!
//! A record either names the binaries a source package produces — then it
//! is a source record — or describes one installable binary. Shared
//! fields are parsed the same way for both; whatever the parse does not
//! consume stays, verbatim and in order, in the package's unparsed bag.

use vstd::prelude::*;

use crate::ParseError;
use crate::arch::Arch;
use crate::arch::arch_of_token;
use crate::arch::arch_token;
use crate::arch::dedup;
use crate::arch::dedup_arches;
use crate::deps::Dependency;
use crate::deps::DependencyView;
use crate::deps::parse_dep_groups;
use crate::ident::Identity;
use crate::ident::IdentityView;
use crate::ident::idents_view;
use crate::ident::read_idents_at;
use crate::bin::Binary;
use crate::bin::BinaryV;
use crate::bin::parse_bin;
use crate::bin::parse_bin_spec;
use crate::rfc822::Field;
use crate::rfc822::FieldView;
use crate::rfc822::Paragraph;
use crate::rfc822::has_key;
use crate::rfc822::joined;
use crate::rfc822::joined_spec;
use crate::rfc822::lines_for;
use crate::rfc822::without_key;
use crate::source::Source;
use crate::source::SourceV;
use crate::source::parse_src;
use crate::source::parse_src_spec;
use crate::text::str_eq;
use crate::text::tokens_in;

verus! {

/// The mathematical image of a listed file.
#[verifier::ext_equal]
pub struct FileV {
    pub name: Seq<char>,
    pub size: u64,
    pub md5: Option<Seq<char>>,
    pub sha1: Option<Seq<char>>,
    pub sha256: Option<Seq<char>>,
    pub sha512: Option<Seq<char>>,
}

/// One file a source record lists: its name, size and whichever digests
/// the record's checksum fields declare for it.
#[derive(Clone, Debug, PartialEq, Eq)]
pub struct File {
    pub name: String,
    pub size: u64,
    pub md5: Option<String>,
    pub sha1: Option<String>,
    pub sha256: Option<String>,
    pub sha512: Option<String>,
}

impl View for File {
    type V = FileV;

    open spec fn view(&self) -> FileV {
        FileV {
            name: self.name@,
            size: self.size,
            md5: self.md5.deep_view(),
            sha1: self.sha1.deep_view(),
            sha256: self.sha256.deep_view(),
            sha512: self.sha512.deep_view(),
        }
    }
}

impl DeepView for File {
    type V = FileV;

    open spec fn deep_view(&self) -> FileV {
        self.view()
    }
}

/// A localized description: which locale it is written for and its text.
#[derive(Clone, Debug, PartialEq, Eq)]
pub struct Description {
    pub locale: String,
    pub value: String,
}

/// The closed vocabulary of package priorities.
#[derive(Copy, Clone, Debug, PartialEq, Eq, Structural)]
pub enum Priority {
    Unknown,
    Required,
    Important,
    Standard,
    Optional,
    Extra,
    Source,
}

/// The priority a token names, if any.
pub open spec fn priority_of_token(s: Seq<char>) -> Option<Priority> {
    if s == "required"@ {
        Some(Priority::Required)
    } else if s == "important"@ {
        Some(Priority::Important)
    } else if s == "standard"@ {
        Some(Priority::Standard)
    } else if s == "optional"@ {
        Some(Priority::Optional)
    } else if s == "extra"@ {
        Some(Priority::Extra)
    } else if s == "source"@ {
        Some(Priority::Source)
    } else if s == "unknown"@ {
        Some(Priority::Unknown)
    } else {
        None
    }
}

/// Parses one priority token of the closed vocabulary; any other token is
/// a hard error carrying the token.
pub fn parse_priority(s: &str) -> (r: Result<Priority, ParseError>)
    ensures
        match r {
            Ok(p) => priority_of_token(s@) == Some(p),
            Err(e) => priority_of_token(s@) is None && (e matches ParseError::UnknownPriority {
                token,
            } && token@ == s@),
        },
{
    if str_eq(s, "required") {
        Ok(Priority::Required)
    } else if str_eq(s, "important") {
        Ok(Priority::Important)
    } else if str_eq(s, "standard") {
        Ok(Priority::Standard)
    } else if str_eq(s, "optional") {
        Ok(Priority::Optional)
    } else if str_eq(s, "extra") {
        Ok(Priority::Extra)
    } else if str_eq(s, "source") {
        Ok(Priority::Source)
    } else if str_eq(s, "unknown") {
        Ok(Priority::Unknown)
    } else {
        Err(ParseError::UnknownPriority { token: s.to_owned() })
    }
}

/// The truth value a yes/no token names, if any.
pub open spec fn yes_no_of(s: Seq<char>) -> Option<bool> {
    if s == "yes"@ {
        Some(true)
    } else if s == "no"@ {
        Some(false)
    } else {
        None
    }
}

/// Parses a yes/no token; any other token is a hard error carrying it.
pub fn yes_no(s: &str) -> (r: Result<bool, ParseError>)
    ensures
        match r {
            Ok(b) => yes_no_of(s@) == Some(b),
            Err(e) => yes_no_of(s@) is None && (e matches ParseError::UnknownYesNo { token }
                && token@ == s@),
        },
{
    if str_eq(s, "yes") {
        Ok(true)
    } else if str_eq(s, "no") {
        Ok(false)
    } else {
        Err(ParseError::UnknownYesNo { token: s.to_owned() })
    }
}

/// A required single-line field: its line and the record without it;
/// nothing when the field is absent or not one line.
pub open spec fn req_line_spec(m: Seq<FieldView>, key: Seq<char>) -> Option<
    (Seq<char>, Seq<FieldView>),
> {
    if has_key(m, key) && lines_for(m, key).len() == 1 {
        Some((lines_for(m, key)[0], without_key(m, key)))
    } else {
        None
    }
}

/// An optional single-line field: its line if present, and the record
/// without it; nothing when the field is present with several lines.
pub open spec fn opt_line_spec(m: Seq<FieldView>, key: Seq<char>) -> Option<
    (Option<Seq<char>>, Seq<FieldView>),
> {
    if !has_key(m, key) {
        Some((None, m))
    } else if lines_for(m, key).len() != 1 {
        None
    } else {
        Some((Some(lines_for(m, key)[0]), without_key(m, key)))
    }
}

/// A dependency relation field: its parsed OR-groups and the record
/// without it; an absent field holds no dependency at all.
pub open spec fn dep_field_spec(m: Seq<FieldView>, key: Seq<char>) -> Option<
    (Seq<DependencyView>, Seq<FieldView>),
> {
    if !has_key(m, key) {
        Some((Seq::empty(), m))
    } else {
        match parse_dep_groups(joined_spec(lines_for(m, key)), 0) {
            None => None,
            Some(ds) => Some((ds, without_key(m, key))),
        }
    }
}

/// The error a single-line field reports: absence carries the key as a
/// missing field, several lines carry it as a wrong line count.
pub open spec fn line_err(m: Seq<FieldView>, key: Seq<char>, e: ParseError) -> bool {
    if !has_key(m, key) {
        e matches ParseError::MissingField { key: k } && k@ == key
    } else {
        e matches ParseError::WrongLineCount { key: k } && k@ == key
    }
}

/// The error an architecture line reports: an unknown-architecture error
/// carrying one of the line's tokens, a token outside the vocabulary.
pub open spec fn arches_err(aline: Seq<char>, e: ParseError) -> bool {
    e matches ParseError::UnknownArch { token } && arch_of_token(token@) is None && tokens_in(
        aline,
        0,
        aline.len() as int,
    ).contains(token@)
}

/// The error a required identity field reports: the line-count errors of
/// the field itself, or a bad-identity error carrying the field's line.
pub open spec fn ident_req_err(m: Seq<FieldView>, key: Seq<char>, e: ParseError) -> bool {
    if !has_key(m, key) || lines_for(m, key).len() != 1 {
        line_err(m, key, e)
    } else {
        e matches ParseError::BadIdentity { text } && text@ == lines_for(m, key)[0]
    }
}

/// The error an optional identity field reports.
pub open spec fn ident_opt_err(m: Seq<FieldView>, key: Seq<char>, e: ParseError) -> bool {
    if has_key(m, key) && lines_for(m, key).len() != 1 {
        e matches ParseError::WrongLineCount { key: k } && k@ == key
    } else {
        e matches ParseError::BadIdentity { text } && text@ == lines_for(m, key)[0]
    }
}

/// The error an optional yes/no field reports.
pub open spec fn flag_err(m: Seq<FieldView>, key: Seq<char>, e: ParseError) -> bool {
    if has_key(m, key) && lines_for(m, key).len() != 1 {
        e matches ParseError::WrongLineCount { key: k } && k@ == key
    } else {
        e matches ParseError::UnknownYesNo { token } && token@ == lines_for(m, key)[0]
    }
}

/// The error an optional decimal field reports.
pub open spec fn size_err(m: Seq<FieldView>, key: Seq<char>, e: ParseError) -> bool {
    if has_key(m, key) && lines_for(m, key).len() != 1 {
        e matches ParseError::WrongLineCount { key: k } && k@ == key
    } else {
        e matches ParseError::BadNumber { text } && text@ == lines_for(m, key)[0]
    }
}

/// The error an optional priority field reports.
pub open spec fn prio_err(m: Seq<FieldView>, key: Seq<char>, e: ParseError) -> bool {
    if has_key(m, key) && lines_for(m, key).len() != 1 {
        e matches ParseError::WrongLineCount { key: k } && k@ == key
    } else {
        e matches ParseError::UnknownPriority { token } && token@ == lines_for(m, key)[0]
    }
}

/// The error a dependency relation field reports: a dependency error
/// carrying the field's joined text, or an unknown-architecture error.
pub open spec fn dep_field_err(m: Seq<FieldView>, key: Seq<char>, e: ParseError) -> bool {
    crate::deps::dep_text_err(joined_spec(lines_for(m, key)), e)
}

/// Takes a dependency relation field out of the record and parses it; an
/// absent field yields no dependency.
pub fn take_dep_field(map: &mut Paragraph, key: &str) -> (r: Result<Vec<Dependency>, ParseError>)
    ensures
        match r {
            Ok(ds) => dep_field_spec(old(map)@, key@) == Some((ds.deep_view(), final(map)@)),
            Err(e) => dep_field_spec(old(map)@, key@) is None && dep_field_err(
                old(map)@,
                key@,
                e,
            ),
        },
{
    match map.remove(key) {
        None => {
            let ds: Vec<Dependency> = Vec::new();
            proof {
                assert(ds.deep_view() =~= Seq::<DependencyView>::empty());
            }
            Ok(ds)
        },
        Some(lines) => {
            let text = joined(&lines);
            crate::deps::read(text.as_str())
        },
    }
}

/// An optional identity-list field: its identities if present (none when
/// absent) and the record without it; nothing when the field is not a
/// single line or its text is malformed.
pub open spec fn ident_opt_spec(m: Seq<FieldView>, key: Seq<char>) -> Option<
    (Seq<IdentityView>, Seq<FieldView>),
> {
    if !has_key(m, key) {
        Some((Seq::empty(), m))
    } else if lines_for(m, key).len() != 1 {
        None
    } else {
        match read_idents_at(lines_for(m, key)[0], 0) {
            None => None,
            Some(ids) => Some((ids, without_key(m, key))),
        }
    }
}

/// Takes an optional identity-list field out of the record.
pub fn take_ident_opt(map: &mut Paragraph, key: &str) -> (r: Result<Vec<Identity>, ParseError>)
    ensures
        match r {
            Ok(ids) => ident_opt_spec(old(map)@, key@) == Some((idents_view(ids@), final(map)@)),
            Err(e) => ident_opt_spec(old(map)@, key@) is None && ident_opt_err(
                old(map)@,
                key@,
                e,
            ),
        },
{
    match map.remove_one_line(key) {
        Err(e) => Err(e),
        Ok(None) => {
            let ids: Vec<Identity> = Vec::new();
            proof {
                assert(idents_view(ids@) =~= Seq::<IdentityView>::empty());
            }
            Ok(ids)
        },
        Ok(Some(line)) => crate::ident::read(line.as_str()),
    }
}

/// A required identity-list field: its identities and the record without
/// it; nothing when the field is absent, not a single line, or malformed.
pub open spec fn ident_req_spec(m: Seq<FieldView>, key: Seq<char>) -> Option<
    (Seq<IdentityView>, Seq<FieldView>),
> {
    match req_line_spec(m, key) {
        None => None,
        Some((line, m2)) => match read_idents_at(line, 0) {
            None => None,
            Some(ids) => Some((ids, m2)),
        },
    }
}

/// Takes a required identity-list field out of the record.
pub fn take_ident_req(map: &mut Paragraph, key: &str) -> (r: Result<Vec<Identity>, ParseError>)
    ensures
        match r {
            Ok(ids) => ident_req_spec(old(map)@, key@) == Some((idents_view(ids@), final(map)@)),
            Err(e) => ident_req_spec(old(map)@, key@) is None && ident_req_err(
                old(map)@,
                key@,
                e,
            ),
        },
{
    match map.take_one_line(key) {
        Err(e) => Err(e),
        Ok(line) => crate::ident::read(line.as_str()),
    }
}

/// An optional yes/no field with a default of no: its value and the
/// record without it; nothing when the field is not a single line or not
/// in the yes/no vocabulary.
pub open spec fn flag_spec(m: Seq<FieldView>, key: Seq<char>) -> Option<(bool, Seq<FieldView>)> {
    if !has_key(m, key) {
        Some((false, m))
    } else if lines_for(m, key).len() != 1 {
        None
    } else {
        match yes_no_of(lines_for(m, key)[0]) {
            None => None,
            Some(b) => Some((b, without_key(m, key))),
        }
    }
}

/// Takes an optional yes/no field out of the record; absent means no.
pub fn take_flag(map: &mut Paragraph, key: &str) -> (r: Result<bool, ParseError>)
    ensures
        match r {
            Ok(b) => flag_spec(old(map)@, key@) == Some((b, final(map)@)),
            Err(e) => flag_spec(old(map)@, key@) is None && flag_err(old(map)@, key@, e),
        },
{
    match map.remove_one_line(key) {
        Err(e) => Err(e),
        Ok(None) => Ok(false),
        Ok(Some(line)) => yes_no(line.as_str()),
    }
}

/// An optional decimal field with a default of zero: its value and the
/// record without it; nothing when the field is not a single line, not a
/// number, or out of range.
pub open spec fn size_spec(m: Seq<FieldView>, key: Seq<char>) -> Option<(u64, Seq<FieldView>)> {
    if !has_key(m, key) {
        Some((0u64, m))
    } else if lines_for(m, key).len() != 1 {
        None
    } else {
        let line = lines_for(m, key)[0];
        if crate::text::all_digits(line) && crate::text::dec_val(line) <= u64::MAX {
            Some((crate::text::dec_val(line) as u64, without_key(m, key)))
        } else {
            None
        }
    }
}

/// Takes an optional decimal field out of the record; absent means zero.
pub fn take_size(map: &mut Paragraph, key: &str) -> (r: Result<u64, ParseError>)
    ensures
        match r {
            Ok(v) => size_spec(old(map)@, key@) == Some((v, final(map)@)),
            Err(e) => size_spec(old(map)@, key@) is None && size_err(old(map)@, key@, e),
        },
{
    match map.remove_one_line(key) {
        Err(e) => Err(e),
        Ok(None) => Ok(0),
        Ok(Some(line)) => crate::text::parse_u64(line.as_str()),
    }
}

/// An optional priority field with a default of unknown: its value and
/// the record without it; nothing when the field is not a single line or
/// its token is outside the vocabulary.
pub open spec fn prio_spec(m: Seq<FieldView>, key: Seq<char>) -> Option<
    (Priority, Seq<FieldView>),
> {
    if !has_key(m, key) {
        Some((Priority::Unknown, m))
    } else if lines_for(m, key).len() != 1 {
        None
    } else {
        match priority_of_token(lines_for(m, key)[0]) {
            None => None,
            Some(p) => Some((p, without_key(m, key))),
        }
    }
}

/// Takes the optional priority field out of the record; absent means
/// unknown.
pub fn take_priority(map: &mut Paragraph, key: &str) -> (r: Result<Priority, ParseError>)
    ensures
        match r {
            Ok(p) => prio_spec(old(map)@, key@) == Some((p, final(map)@)),
            Err(e) => prio_spec(old(map)@, key@) is None && prio_err(old(map)@, key@, e),
        },
{
    match map.remove_one_line(key) {
        Err(e) => Err(e),
        Ok(None) => Ok(Priority::Unknown),
        Ok(Some(line)) => parse_priority(line.as_str()),
    }
}

/// The architecture tags the tokens name, all or nothing.
pub open spec fn arches_of_tokens(toks: Seq<Seq<char>>) -> Option<Seq<Arch>>
    decreases toks.len(),
{
    if toks.len() == 0 {
        Some(Seq::empty())
    } else {
        match arch_of_token(toks[0]) {
            None => None,
            Some(a) => match arches_of_tokens(toks.drop_first()) {
                None => None,
                Some(r) => Some(seq![a] + r),
            },
        }
    }
}

/// Parses every whitespace-separated architecture token of a line into
/// the set of tags it names, first occurrences kept in order and repeats
/// collapsed; any unknown token is a hard error carrying the first one.
pub fn parse_arches(line: &str) -> (r: Result<Vec<Arch>, ParseError>)
    ensures
        match r {
            Ok(arches) => arches_of_tokens(
                crate::text::tokens_in(line@, 0, line@.len() as int),
            ) matches Some(all) && arches@ == dedup_arches(all),
            Err(e) => arches_of_tokens(crate::text::tokens_in(line@, 0, line@.len() as int))
                is None && (e matches ParseError::UnknownArch { token } && arch_of_token(token@)
                is None && crate::text::tokens_in(line@, 0, line@.len() as int).contains(
                token@,
            )),
        },
{
    let toks = crate::text::split_tokens(line);
    proof {
        assert(toks.deep_view().skip(0) =~= toks.deep_view());
    }
    match arches_from(&toks, 0) {
        Err(e) => Err(e),
        Ok(all) => Ok(dedup(&all)),
    }
}

/// Parses the architecture tokens from position `i` on.
fn arches_from(toks: &Vec<String>, i: usize) -> (r: Result<Vec<Arch>, ParseError>)
    requires
        i <= toks@.len(),
    ensures
        match r {
            Ok(arches) => arches_of_tokens(toks.deep_view().skip(i as int)) == Some(arches@),
            Err(e) => arches_of_tokens(toks.deep_view().skip(i as int)) is None && (e
                matches ParseError::UnknownArch { token } && arch_of_token(token@) is None
                && toks.deep_view().skip(i as int).contains(token@)),
        },
    decreases toks@.len() - i,
{
    let n = toks.len();
    if i >= n {
        let arches: Vec<Arch> = Vec::new();
        proof {
            assert(toks.deep_view().skip(i as int) =~= Seq::<Seq<char>>::empty());
        }
        return Ok(arches);
    }
    proof {
        assert(toks.deep_view().skip(i as int).len() == n - i);
        assert(toks.deep_view().skip(i as int)[0] == toks.deep_view()[i as int]);
        assert(toks.deep_view().skip(i as int).drop_first() =~= toks.deep_view().skip(i + 1));
    }
    match Arch::parse(toks[i].as_str()) {
        Err(e) => Err(e),
        Ok(a) => match arches_from(toks, i + 1) {
            Err(e) => Err(e),
            Ok(rest0) => {
                let ghost before = rest0@;
                let mut rest = rest0;
                rest.insert(0, a);
                proof {
                    assert(rest@ =~= seq![a] + before);
                }
                Ok(rest)
            },
        },
    }
}

/// The mathematical image of a package's variant payload.
#[verifier::ext_equal]
pub enum PackageTypeV {
    Source(SourceV),
    Binary(BinaryV),
}

/// A package's variant payload: the build recipe of a source package, or
/// the metadata of an installable binary. Exactly one of the two holds,
/// chosen by whether the record names produced binaries.
#[derive(Clone, Debug, PartialEq, Eq)]
pub enum PackageType {
    Source(Source),
    Binary(Binary),
}

impl View for PackageType {
    type V = PackageTypeV;

    open spec fn view(&self) -> PackageTypeV {
        match self {
            PackageType::Source(s) => PackageTypeV::Source(s@),
            PackageType::Binary(b) => PackageTypeV::Binary(b@),
        }
    }
}

/// The mathematical image of a package.
#[verifier::ext_equal]
pub struct PackageV {
    pub name: Seq<char>,
    pub version: Seq<char>,
    pub priority: Priority,
    pub section: Option<Seq<char>>,
    pub arches: Seq<Arch>,
    pub maintainer: Seq<IdentityView>,
    pub original_maintainer: Seq<IdentityView>,
    pub homepage: Option<Seq<char>>,
    pub unparsed: Seq<FieldView>,
    pub style: PackageTypeV,
}

/// One parsed archive record: the shared identifying fields, the variant
/// payload, and every field the parse did not consume, kept verbatim and
/// in order.
#[derive(Clone, Debug)]
pub struct Package {
    pub name: String,
    pub version: String,
    pub priority: Priority,
    pub section: Option<String>,
    pub arches: Vec<Arch>,
    pub maintainer: Vec<Identity>,
    pub original_maintainer: Vec<Identity>,
    pub homepage: Option<String>,
    pub unparsed: Vec<Field>,
    pub style: PackageType,
}

impl View for Package {
    type V = PackageV;

    open spec fn view(&self) -> PackageV {
        PackageV {
            name: self.name@,
            version: self.version@,
            priority: self.priority,
            section: self.section.deep_view(),
            arches: self.arches@,
            maintainer: self.maintainer.deep_view(),
            original_maintainer: self.original_maintainer.deep_view(),
            homepage: self.homepage.deep_view(),
            unparsed: self.unparsed.deep_view(),
            style: self.style@,
        }
    }
}

/// What parsing the shared fields yields, around a given variant payload:
/// the package, or nothing when any shared field is malformed. The
/// leftover fields become the package's unparsed bag.
pub open spec fn parse_pkg_spec(m: Seq<FieldView>, style: PackageTypeV) -> Option<PackageV> {
    match req_line_spec(m, "Architecture"@) {
        None => None,
        Some((aline, m1)) => match arches_of_tokens(tokens_in(aline, 0, aline.len() as int)) {
            None => None,
            Some(all_arches) => match ident_opt_spec(m1, "Original-Maintainer"@) {
                None => None,
                Some((original_maintainer, m2)) => match req_line_spec(m2, "Package"@) {
                    None => None,
                    Some((name, m3)) => match req_line_spec(m3, "Version"@) {
                        None => None,
                        Some((version, m4)) => match prio_spec(m4, "Priority"@) {
                            None => None,
                            Some((priority, m5)) => match opt_line_spec(m5, "Section"@) {
                                None => None,
                                Some((section, m6)) => match ident_req_spec(m6, "Maintainer"@) {
                                    None => None,
                                    Some((maintainer, m7)) => match opt_line_spec(
                                        m7,
                                        "Homepage"@,
                                    ) {
                                        None => None,
                                        Some((homepage, m8)) => Some(
                                            PackageV {
                                                name,
                                                version,
                                                priority,
                                                section,
                                                arches: dedup_arches(all_arches),
                                                maintainer,
                                                original_maintainer,
                                                homepage,
                                                unparsed: m8,
                                                style,
                                            },
                                        ),
                                    },
                                },
                            },
                        },
                    },
                },
            },
        },
    }
}

/// The error the shared-field parse reports for a record, paired with
/// the first failing step of the field chain. In particular, an
/// Architecture line holding a token outside the vocabulary reports an
/// unknown-architecture error carrying such a token of that line.
pub open spec fn parse_pkg_err(m: Seq<FieldView>, e: ParseError) -> bool {
    match req_line_spec(m, "Architecture"@) {
        None => line_err(m, "Architecture"@, e),
        Some((aline, m1)) => match arches_of_tokens(tokens_in(aline, 0, aline.len() as int)) {
            None => arches_err(aline, e),
            Some(_) => match ident_opt_spec(m1, "Original-Maintainer"@) {
                None => ident_opt_err(m1, "Original-Maintainer"@, e),
                Some((_, m2)) => match req_line_spec(m2, "Package"@) {
                    None => line_err(m2, "Package"@, e),
                    Some((_, m3)) => match req_line_spec(m3, "Version"@) {
                        None => line_err(m3, "Version"@, e),
                        Some((_, m4)) => match prio_spec(m4, "Priority"@) {
                            None => prio_err(m4, "Priority"@, e),
                            Some((_, m5)) => match opt_line_spec(m5, "Section"@) {
                                None => e matches ParseError::WrongLineCount { key } && key@
                                    == "Section"@,
                                Some((_, m6)) => match ident_req_spec(m6, "Maintainer"@) {
                                    None => ident_req_err(m6, "Maintainer"@, e),
                                    Some((_, m7)) => match opt_line_spec(m7, "Homepage"@) {
                                        None => e matches ParseError::WrongLineCount { key }
                                            && key@ == "Homepage"@,
                                        Some(_) => false,
                                    },
                                },
                            },
                        },
                    },
                },
            },
        },
    }
}

/// Parses the shared fields of a record around a given variant payload,
/// consuming the whole record: what the parse does not know becomes the
/// package's unparsed bag. A failure carries the first failing field's
/// own error — an unknown architecture token, in particular, comes back
/// in the error.
pub fn parse_pkg(map: Paragraph, style: PackageType) -> (r: Result<Package, ParseError>)
    ensures
        match r {
            Ok(p) => parse_pkg_spec(map@, style@) == Some(p@),
            Err(e) => parse_pkg_spec(map@, style@) is None && parse_pkg_err(map@, e),
        },
{
    let mut m = map;
    let aline = match m.take_one_line("Architecture") {
        Ok(v) => v,
        Err(e) => {
            return Err(e);
        },
    };
    let arches = match parse_arches(aline.as_str()) {
        Ok(v) => v,
        Err(e) => {
            return Err(e);
        },
    };
    let original_maintainer = match take_ident_opt(&mut m, "Original-Maintainer") {
        Ok(v) => v,
        Err(e) => {
            return Err(e);
        },
    };
    let name = match m.take_one_line("Package") {
        Ok(v) => v,
        Err(e) => {
            return Err(e);
        },
    };
    let version = match m.take_one_line("Version") {
        Ok(v) => v,
        Err(e) => {
            return Err(e);
        },
    };
    let priority = match take_priority(&mut m, "Priority") {
        Ok(v) => v,
        Err(e) => {
            return Err(e);
        },
    };
    let section = match m.remove_one_line("Section") {
        Ok(v) => v,
        Err(e) => {
            return Err(e);
        },
    };
    let maintainer = match take_ident_req(&mut m, "Maintainer") {
        Ok(v) => v,
        Err(e) => {
            return Err(e);
        },
    };
    let homepage = match m.remove_one_line("Homepage") {
        Ok(v) => v,
        Err(e) => {
            return Err(e);
        },
    };
    let unparsed = m.into_fields();
    let p = Package {
        name,
        version,
        priority,
        section,
        arches,
        maintainer,
        original_maintainer,
        homepage,
        unparsed,
        style,
    };
    proof {
        let pv = parse_pkg_spec(map@, style@).unwrap();
        assert(pv =~= p@);
    }
    Ok(p)
}

/// What parsing a whole record yields: a source package when the record
/// names produced binaries, an installable binary otherwise, or nothing
/// when any field either parse needs is malformed.
pub open spec fn package_parse_spec(m: Seq<FieldView>) -> Option<PackageV> {
    if has_key(m, "Binary"@) {
        match parse_src_spec(m) {
            None => None,
            Some((src, m1)) => parse_pkg_spec(m1, PackageTypeV::Source(src)),
        }
    } else {
        match parse_bin_spec(m) {
            None => None,
            Some((bin, m1)) => parse_pkg_spec(m1, PackageTypeV::Binary(bin)),
        }
    }
}

/// The error a whole-record parse reports: the failing variant parse's
/// error where the variant fields are at fault, else the shared-field
/// parse's error.
pub open spec fn package_err(m: Seq<FieldView>, e: ParseError) -> bool {
    if has_key(m, "Binary"@) {
        match parse_src_spec(m) {
            None => crate::source::parse_src_err(m, e),
            Some((_, m1)) => parse_pkg_err(m1, e),
        }
    } else {
        match parse_bin_spec(m) {
            None => crate::bin::parse_bin_err(m, e),
            Some((_, m1)) => parse_pkg_err(m1, e),
        }
    }
}

/// Wraps a record failure with the package name it struck, where the
/// record names one.
fn attribute(name_hint: Option<String>, e: ParseError) -> (r: ParseError)
    ensures
        match name_hint {
            Some(name) => r matches ParseError::InPackage { name: n, cause } && n@ == name@
                && *cause == e,
            None => r == e,
        },
{
    match name_hint {
        Some(name) => ParseError::InPackage { name, cause: Box::new(e) },
        None => e,
    }
}

impl Package {
    /// Parses one scanned record into a typed package. A field naming the
    /// binaries a source produces selects the source variant; its absence
    /// selects the binary variant. Any malformed required field fails the
    /// whole record.
    #[verifier::rlimit(100)]
    pub fn parse(map: Paragraph) -> (r: Result<Package, ParseError>)
        ensures
            match r {
                Ok(p) => package_parse_spec(map@) == Some(p@),
                Err(e) => package_parse_spec(map@) is None && match req_line_spec(
                    map@,
                    "Package"@,
                ) {
                    Some((name, _)) => e matches ParseError::InPackage { name: n, cause }
                        && n@ == name && package_err(map@, *cause),
                    None => package_err(map@, e),
                },
            },
    {
        let mut m = map;
        let name_hint = m.get_one_line("Package");
        let style = if m.contains_key("Binary") {
            match parse_src(&mut m) {
                Ok(src) => PackageType::Source(src),
                Err(e) => {
                    proof {
                        assert(package_parse_spec(map@) is None);
                        assert(package_err(map@, e));
                    }
                    return Err(attribute(name_hint, e));
                },
            }
        } else {
            match parse_bin(&mut m) {
                Ok(bin) => PackageType::Binary(bin),
                Err(e) => {
                    proof {
                        assert(package_parse_spec(map@) is None);
                        assert(package_err(map@, e));
                    }
                    return Err(attribute(name_hint, e));
                },
            }
        };
        proof {
            assert(package_parse_spec(map@) == parse_pkg_spec(m@, style@));
        }
        match parse_pkg(m, style) {
            Ok(p) => Ok(p),
            Err(e) => {
                proof {
                    assert(package_err(map@, e));
                }
                Err(attribute(name_hint, e))
            },
        }
    }

    /// The source payload, when this is a source package.
    pub fn as_src(&self) -> (r: Option<&Source>)
        ensures
            match r {
                Some(src) => self.style == PackageType::Source(*src),
                None => self.style is Binary,
            },
    {
        match &self.style {
            PackageType::Source(src) => Some(src),
            PackageType::Binary(_) => None,
        }
    }

    /// The binary payload, when this is an installable binary.
    pub fn as_bin(&self) -> (r: Option<&Binary>)
        ensures
            match r {
                Some(bin) => self.style == PackageType::Binary(*bin),
                None => self.style is Source,
            },
    {
        match &self.style {
            PackageType::Binary(bin) => Some(bin),
            PackageType::Source(_) => None,
        }
    }

    /// The binary payload, under the name the older call sites use.
    pub fn bin(&self) -> (r: Option<&Binary>)
        ensures
            match r {
                Some(bin) => self.style == PackageType::Binary(*bin),
                None => self.style is Source,
            },
    {
        self.as_bin()
    }

    /// The package's priority; unknown where the record carried none.
    pub fn priority(&self) -> (r: Priority)
        ensures
            r == self.priority,
    {
        self.priority
    }

    /// The package's display label: the name, then a colon and the tag
    /// where it is built for exactly one architecture, then an equals
    /// sign and the version. A package with several architectures has no
    /// such label, and the sentinel tag none either, so both stay out.
    pub fn display_string(&self) -> (r: String)
        requires
            self.arches@.len() <= 1,
            self.arches@.len() == 1 ==> self.arches@[0] != Arch::ParserBug,
        ensures
            r@ == self.name@ + (if self.arches@.len() == 1 {
                seq![':'] + arch_token(self.arches@[0])
            } else {
                Seq::<char>::empty()
            }) + seq!['='] + self.version@,
    {
        let mut out = self.name.clone();
        if self.arches.len() == 1 {
            proof {
                reveal_strlit(":");
                assert(":"@ =~= seq![':']);
            }
            out.append(":");
            match self.arches[0].token() {
                Some(t) => out.append(t),
                None => {
                    proof {
                        assert(false);
                    }
                },
            }
        }
        proof {
            reveal_strlit("=");
            assert("="@ =~= seq!['=']);
        }
        out.append("=");
        out.append(self.version.as_str());
        out
    }

    /// The package's section, where the record carried one.
    pub fn section(&self) -> (r: Option<String>)
        ensures
            match r {
                Some(s) => self.section matches Some(t) && s@ == t@,
                None => self.section is None,
            },
    {
        match &self.section {
            Some(s) => Some(s.clone()),
            None => None,
        }
    }
}

} // verus!
