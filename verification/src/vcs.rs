//! Version-control pointers of a source package.
//!
//! A source record may carry fields naming where its code lives, one per
//! version-control kind, optionally prefixed to mark whose tree it is.

use vstd::prelude::*;

use crate::ParseError;
use crate::rfc822::Field;
use crate::rfc822::FieldView;
use crate::rfc822::Paragraph;

verus! {

/// The version-control kinds a pointer can name.
#[derive(Copy, Clone, Debug, PartialEq, Eq, Structural)]
pub enum VcsType {
    Browser,
    Arch,
    Bzr,
    Cvs,
    Darcs,
    Git,
    Hg,
    Mtn,
    Svn,
}

/// Whose tree a pointer names: the package's own, or the original, Debian
/// or upstream one.
#[derive(Copy, Clone, Debug, PartialEq, Eq, Structural)]
pub enum VcsTag {
    Vcs,
    Orig,
    Debian,
    Upstream,
}

/// The mathematical image of a pointer.
#[verifier::ext_equal]
pub struct VcsView {
    pub description: Seq<char>,
    pub vcs: VcsType,
    pub tag: VcsTag,
}

/// One version-control pointer: its free-text locator, its kind, and
/// whose tree it names.
#[derive(Clone, Debug, PartialEq, Eq)]
pub struct Vcs {
    pub description: String,
    pub vcs: VcsType,
    pub tag: VcsTag,
}

impl View for Vcs {
    type V = VcsView;

    open spec fn view(&self) -> VcsView {
        VcsView { description: self.description@, vcs: self.vcs, tag: self.tag }
    }
}

impl DeepView for Vcs {
    type V = VcsView;

    open spec fn deep_view(&self) -> VcsView {
        self.view()
    }
}

/// The kind a suffix names.
pub open spec fn vcs_type_of(s: Seq<char>) -> Option<VcsType> {
    if s == "Browser"@ {
        Some(VcsType::Browser)
    } else if s == "Arch"@ {
        Some(VcsType::Arch)
    } else if s == "Bzr"@ {
        Some(VcsType::Bzr)
    } else if s == "Cvs"@ {
        Some(VcsType::Cvs)
    } else if s == "Darcs"@ {
        Some(VcsType::Darcs)
    } else if s == "Git"@ {
        Some(VcsType::Git)
    } else if s == "Hg"@ {
        Some(VcsType::Hg)
    } else if s == "Mtn"@ {
        Some(VcsType::Mtn)
    } else if s == "Svn"@ {
        Some(VcsType::Svn)
    } else {
        None
    }
}

/// The kind and tag a field name carries, if it is a pointer field.
pub open spec fn vcs_of_key(name: Seq<char>) -> Option<(VcsType, VcsTag)> {
    if name.len() >= 4 && name.subrange(0, 4) == "Vcs-"@ {
        match vcs_type_of(name.subrange(4, name.len() as int)) {
            None => None,
            Some(t) => Some((t, VcsTag::Vcs)),
        }
    } else if name.len() >= 9 && name.subrange(0, 9) == "Orig-Vcs-"@ {
        match vcs_type_of(name.subrange(9, name.len() as int)) {
            None => None,
            Some(t) => Some((t, VcsTag::Orig)),
        }
    } else if name.len() >= 11 && name.subrange(0, 11) == "Debian-Vcs-"@ {
        match vcs_type_of(name.subrange(11, name.len() as int)) {
            None => None,
            Some(t) => Some((t, VcsTag::Debian)),
        }
    } else if name.len() >= 13 && name.subrange(0, 13) == "Upstream-Vcs-"@ {
        match vcs_type_of(name.subrange(13, name.len() as int)) {
            None => None,
            Some(t) => Some((t, VcsTag::Upstream)),
        }
    } else {
        None
    }
}

/// Reads the kind a suffix names.
fn vcs_type_exec(s: &str) -> (r: Option<VcsType>)
    ensures
        r == vcs_type_of(s@),
{
    if crate::text::str_eq(s, "Browser") {
        Some(VcsType::Browser)
    } else if crate::text::str_eq(s, "Arch") {
        Some(VcsType::Arch)
    } else if crate::text::str_eq(s, "Bzr") {
        Some(VcsType::Bzr)
    } else if crate::text::str_eq(s, "Cvs") {
        Some(VcsType::Cvs)
    } else if crate::text::str_eq(s, "Darcs") {
        Some(VcsType::Darcs)
    } else if crate::text::str_eq(s, "Git") {
        Some(VcsType::Git)
    } else if crate::text::str_eq(s, "Hg") {
        Some(VcsType::Hg)
    } else if crate::text::str_eq(s, "Mtn") {
        Some(VcsType::Mtn)
    } else if crate::text::str_eq(s, "Svn") {
        Some(VcsType::Svn)
    } else {
        None
    }
}

/// Reads the kind and tag a field name carries, if it is a pointer field.
fn vcs_of_key_exec(name: &str) -> (r: Option<(VcsType, VcsTag)>)
    ensures
        r == vcs_of_key(name@),
{
    let n = name.unicode_len();
    if n >= 4 && crate::text::str_eq(name.substring_char(0, 4), "Vcs-") {
        match vcs_type_exec(name.substring_char(4, n)) {
            None => None,
            Some(t) => Some((t, VcsTag::Vcs)),
        }
    } else if n >= 9 && crate::text::str_eq(name.substring_char(0, 9), "Orig-Vcs-") {
        match vcs_type_exec(name.substring_char(9, n)) {
            None => None,
            Some(t) => Some((t, VcsTag::Orig)),
        }
    } else if n >= 11 && crate::text::str_eq(name.substring_char(0, 11), "Debian-Vcs-") {
        match vcs_type_exec(name.substring_char(11, n)) {
            None => None,
            Some(t) => Some((t, VcsTag::Debian)),
        }
    } else if n >= 13 && crate::text::str_eq(name.substring_char(0, 13), "Upstream-Vcs-") {
        match vcs_type_exec(name.substring_char(13, n)) {
            None => None,
            Some(t) => Some((t, VcsTag::Upstream)),
        }
    } else {
        None
    }
}

/// The image of a pointer list.
pub open spec fn vcs_list_view(vs: Seq<Vcs>) -> Seq<VcsView> {
    vs.map(|k: int, v: Vcs| v@)
}

/// The pointers among the fields from position `i` on, each consumed from
/// the paragraph, and the fields that stay. A pointer field with more
/// than one line fails the parse.
pub open spec fn extract_vcs_from(m: Seq<FieldView>, i: int) -> Option<
    (Seq<VcsView>, Seq<FieldView>),
>
    decreases m.len() - i,
    when 0 <= i <= m.len()
{
    if i >= m.len() {
        Some((Seq::empty(), Seq::empty()))
    } else {
        match extract_vcs_from(m, i + 1) {
            None => None,
            Some((vs, rest)) => match vcs_of_key(m[i].name) {
                None => Some((vs, seq![m[i]] + rest)),
                Some((t, tag)) => if m[i].lines.len() != 1 {
                    None
                } else {
                    Some(
                        (seq![VcsView { description: m[i].lines[0], vcs: t, tag }] + vs, rest),
                    )
                },
            },
        }
    }
}

/// Extracts the pointers among the fields from position `i` on.
fn extract_vcs_rec(fields: &Vec<Field>, i: usize) -> (r: Result<
    (Vec<Vcs>, Vec<Field>),
    ParseError,
>)
    requires
        i <= fields@.len(),
    ensures
        match r {
            Ok((vs, rest)) => extract_vcs_from(fields.deep_view(), i as int) == Some(
                (vcs_list_view(vs@), rest.deep_view()),
            ),
            Err(e) => extract_vcs_from(fields.deep_view(), i as int) is None && (e
                matches ParseError::WrongLineCount { key } && vcs_of_key(key@) is Some),
        },
    decreases fields@.len() - i,
{
    let n = fields.len();
    if i >= n {
        let vs: Vec<Vcs> = Vec::new();
        let rest: Vec<Field> = Vec::new();
        proof {
            assert(vcs_list_view(vs@) =~= Seq::<VcsView>::empty());
            assert(rest.deep_view() =~= Seq::<FieldView>::empty());
        }
        return Ok((vs, rest));
    }
    match extract_vcs_rec(fields, i + 1) {
        Err(e) => Err(e),
        Ok((mut vs, mut rest)) => {
            let field = &fields[i];
            match vcs_of_key_exec(field.name.as_str()) {
                None => {
                    rest.insert(0, field.duplicate());
                    proof {
                        assert(rest.deep_view() =~= seq![fields.deep_view()[i as int]]
                            + rest.deep_view().drop_first());
                    }
                    Ok((vs, rest))
                },
                Some((t, tag)) => {
                    if field.lines.len() != 1 {
                        return Err(ParseError::WrongLineCount { key: field.name.clone() });
                    }
                    let v = Vcs { description: field.lines[0].clone(), vcs: t, tag };
                    vs.insert(0, v);
                    proof {
                        assert(vcs_list_view(vs@) =~= seq![vs@[0]@] + vcs_list_view(
                            vs@.drop_first(),
                        ));
                    }
                    Ok((vs, rest))
                },
            }
        },
    }
}

/// Extracts every version-control pointer of the record, in field order,
/// consuming the pointer fields.
pub fn extract(map: &mut Paragraph) -> (r: Result<Vec<Vcs>, ParseError>)
    ensures
        match r {
            Ok(vs) => extract_vcs_from(old(map)@, 0) == Some((vcs_list_view(vs@), final(map)@)),
            Err(e) => extract_vcs_from(old(map)@, 0) is None && (e
                matches ParseError::WrongLineCount { key } && vcs_of_key(key@) is Some),
        },
{
    match extract_vcs_rec(&map.fields, 0) {
        Err(e) => Err(e),
        Ok((vs, rest)) => {
            map.fields = rest;
            Ok(vs)
        },
    }
}

} // verus!
