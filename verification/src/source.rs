//! The source half of the package model.
//!
//! A record naming the binaries it produces is a source package: a build
//! recipe with a format marker, a produced-binary list, an archive file
//! list with per-file digests, version-control pointers, and the six
//! build-time dependency lists.

use vstd::prelude::*;

use crate::ParseError;
use crate::deps::Dependency;
use crate::deps::DependencyView;
use crate::ident::Identity;
use crate::ident::IdentityView;
use crate::pkg::File;
use crate::pkg::FileV;
use crate::pkg::Priority;
use crate::pkg::dep_field_err;
use crate::pkg::dep_field_spec;
use crate::pkg::ident_opt_err;
use crate::pkg::ident_opt_spec;
use crate::pkg::line_err;
use crate::pkg::priority_of_token;
use crate::pkg::req_line_spec;
use crate::pkg::take_dep_field;
use crate::pkg::take_ident_opt;
use crate::text::all_digits;
use crate::text::dec_val;
use crate::text::find_char;
use crate::text::find_char_from;
use crate::text::lemma_find_char;
use crate::text::parse_u64;
use crate::text::split_tokens;
use crate::text::str_eq;
use crate::text::tokens_in;
use crate::text::trim_substring;
use crate::text::trimmed;
use crate::rfc822::FieldView;
use crate::rfc822::Paragraph;
use crate::rfc822::has_key;
use crate::rfc822::joined;
use crate::rfc822::joined_spec;
use crate::rfc822::lines_for;
use crate::rfc822::without_key;
use crate::vcs::Vcs;
use crate::vcs::VcsView;
use crate::vcs::extract_vcs_from;
use crate::vcs::vcs_of_key;

verus! {

/// The closed vocabulary of source formats.
#[derive(Copy, Clone, Debug, PartialEq, Eq, Structural)]
pub enum SourceFormat {
    Original,
    Quilt3dot0,
    Native3dot0,
    Git3dot0,
}

/// The format a marker names, if any.
pub open spec fn format_of_token(s: Seq<char>) -> Option<SourceFormat> {
    if s == "1.0"@ {
        Some(SourceFormat::Original)
    } else if s == "3.0 (quilt)"@ {
        Some(SourceFormat::Quilt3dot0)
    } else if s == "3.0 (native)"@ {
        Some(SourceFormat::Native3dot0)
    } else if s == "3.0 (git)"@ {
        Some(SourceFormat::Git3dot0)
    } else {
        None
    }
}

/// Parses a source format marker; any other marker is a hard error
/// carrying it.
pub fn parse_format(s: &str) -> (r: Result<SourceFormat, ParseError>)
    ensures
        match r {
            Ok(f) => format_of_token(s@) == Some(f),
            Err(e) => format_of_token(s@) is None && (e matches ParseError::UnknownFormat {
                token,
            } && token@ == s@),
        },
{
    if str_eq(s, "1.0") {
        Ok(SourceFormat::Original)
    } else if str_eq(s, "3.0 (quilt)") {
        Ok(SourceFormat::Quilt3dot0)
    } else if str_eq(s, "3.0 (native)") {
        Ok(SourceFormat::Native3dot0)
    } else if str_eq(s, "3.0 (git)") {
        Ok(SourceFormat::Git3dot0)
    } else {
        Err(ParseError::UnknownFormat { token: s.to_owned() })
    }
}

/// The mathematical image of a produced binary.
#[verifier::ext_equal]
pub struct SourceBinaryV {
    pub name: Seq<char>,
    pub style: Seq<char>,
    pub section: Seq<char>,
    pub priority: Priority,
    pub extras: Seq<Seq<char>>,
}

/// One binary a source package produces: its name, kind, section and
/// priority, with any further package-list columns kept as extras.
#[derive(Clone, Debug, PartialEq, Eq)]
pub struct SourceBinary {
    pub name: String,
    pub style: String,
    pub section: String,
    pub priority: Priority,
    pub extras: Vec<String>,
}

impl View for SourceBinary {
    type V = SourceBinaryV;

    open spec fn view(&self) -> SourceBinaryV {
        SourceBinaryV {
            name: self.name@,
            style: self.style@,
            section: self.section@,
            priority: self.priority,
            extras: self.extras.deep_view(),
        }
    }
}

impl DeepView for SourceBinary {
    type V = SourceBinaryV;

    open spec fn deep_view(&self) -> SourceBinaryV {
        self.view()
    }
}

/// The error a package-list parse reports: a columned-line error
/// carrying one of the field's lines, or an unknown-priority error
/// carrying a token outside the vocabulary.
pub open spec fn pkg_list_err(lines: Seq<Seq<char>>, e: ParseError) -> bool {
    ||| e matches ParseError::BadFileLine { line } && lines.contains(line@)
    ||| e matches ParseError::UnknownPriority { token } && priority_of_token(token@) is None
}

/// The error a checksum-entry parse reports: a columned-line error, or a
/// bad-number error whose text is no decimal in range.
pub open spec fn entry_err(e: ParseError) -> bool {
    ||| e matches ParseError::BadFileLine { .. }
    ||| e matches ParseError::BadNumber { text } && (!all_digits(text@) || dec_val(text@)
        > u64::MAX)
}

/// The produced binaries a package-list field declares, line by line: a
/// blank line contributes nothing, any other needs name, kind, section
/// and priority columns.
pub open spec fn pkg_list_lines_spec(lines: Seq<Seq<char>>, i: int) -> Option<Seq<SourceBinaryV>>
    decreases lines.len() - i,
    when 0 <= i <= lines.len()
{
    if i >= lines.len() {
        Some(Seq::empty())
    } else {
        let toks = tokens_in(lines[i], 0, lines[i].len() as int);
        if toks.len() == 0 {
            pkg_list_lines_spec(lines, i + 1)
        } else if toks.len() < 4 {
            None
        } else {
            match priority_of_token(toks[3]) {
                None => None,
                Some(priority) => match pkg_list_lines_spec(lines, i + 1) {
                    None => None,
                    Some(rest) => Some(
                        seq![
                            SourceBinaryV {
                                name: toks[0],
                                style: toks[1],
                                section: toks[2],
                                priority,
                                extras: toks.subrange(4, toks.len() as int),
                            },
                        ] + rest,
                    ),
                },
            }
        }
    }
}

/// Reads the produced binaries from the package-list lines.
fn pkg_list_lines_exec(lines: &Vec<String>, i: usize) -> (r: Result<Vec<SourceBinary>, ParseError>)
    requires
        i <= lines@.len(),
    ensures
        match r {
            Ok(bins) => pkg_list_lines_spec(lines.deep_view(), i as int) == Some(bins.deep_view()),
            Err(e) => pkg_list_lines_spec(lines.deep_view(), i as int) is None && pkg_list_err(
                lines.deep_view(),
                e,
            ),
        },
    decreases lines@.len() - i,
{
    let n = lines.len();
    if i >= n {
        let bins: Vec<SourceBinary> = Vec::new();
        proof {
            assert(bins.deep_view() =~= Seq::<SourceBinaryV>::empty());
        }
        return Ok(bins);
    }
    let toks = split_tokens(lines[i].as_str());
    if toks.len() == 0 {
        proof {
            assert(toks.deep_view().len() == 0);
        }
        return pkg_list_lines_exec(lines, i + 1);
    }
    if toks.len() < 4 {
        return Err(ParseError::BadFileLine { line: lines[i].clone() });
    }
    let priority = match crate::pkg::parse_priority(toks[3].as_str()) {
        Ok(p) => p,
        Err(e) => {
            return Err(e);
        },
    };
    let mut extras: Vec<String> = Vec::new();
    proof {
        assert(extras.deep_view() =~= toks.deep_view().subrange(4, 4));
    }
    let mut k: usize = 4;
    while k < toks.len()
        invariant
            4 <= k <= toks@.len(),
            extras@.len() == k - 4,
            extras.deep_view() == toks.deep_view().subrange(4, k as int),
        decreases toks@.len() - k,
    {
        let t = toks[k].clone();
        assert(t@ == toks@[k as int]@);
        extras.push(t);
        proof {
            assert(extras.deep_view() =~= toks.deep_view().subrange(4, k + 1));
        }
        k = k + 1;
    }
    let sb = SourceBinary {
        name: toks[0].clone(),
        style: toks[1].clone(),
        section: toks[2].clone(),
        priority,
        extras,
    };
    match pkg_list_lines_exec(lines, i + 1) {
        Err(e) => Err(e),
        Ok(rest0) => {
            let ghost before = rest0.deep_view();
            let mut rest = rest0;
            rest.insert(0, sb);
            proof {
                assert(rest.deep_view() =~= seq![sb@] + before);
            }
            Ok(rest)
        },
    }
}

/// The produced binaries named by a comma-separated list: each trimmed
/// name becomes a binary with empty kind and section and unknown
/// priority; whitespace-only pieces contribute nothing.
pub open spec fn bin_names_spec(s: Seq<char>, i: int) -> Seq<SourceBinaryV>
    decreases s.len() - i,
    when 0 <= i <= s.len()
    via bin_names_spec_dec
{
    let e = find_char(s, i, ',');
    let name = trimmed(s, i, e);
    let head = if name.len() == 0 {
        Seq::<SourceBinaryV>::empty()
    } else {
        seq![
            SourceBinaryV {
                name,
                style: Seq::empty(),
                section: Seq::empty(),
                priority: Priority::Unknown,
                extras: Seq::empty(),
            },
        ]
    };
    if e >= s.len() {
        head
    } else {
        head + bin_names_spec(s, e + 1)
    }
}

#[via_fn]
proof fn bin_names_spec_dec(s: Seq<char>, i: int) {
    lemma_find_char(s, i, ',');
}

/// Reads the produced binaries from a comma-separated name list.
fn bin_names_exec(s: &str, i: usize, out: &mut Vec<SourceBinary>)
    requires
        i <= s@.len(),
    ensures
        final(out).deep_view() == old(out).deep_view() + bin_names_spec(s@, i as int),
    decreases s@.len() - i,
{
    proof {
        lemma_find_char(s@, i as int, ',');
    }
    let n = s.unicode_len();
    let e = find_char_from(s, i, ',');
    let name = trim_substring(s, i, e);
    if name.unicode_len() > 0 {
        let style = String::new();
        let section = String::new();
        let extras: Vec<String> = Vec::new();
        let sb = SourceBinary { name, style, section, priority: Priority::Unknown, extras };
        proof {
            assert(sb@.extras =~= Seq::<Seq<char>>::empty());
        }
        out.push(sb);
    }
    if e < n {
        bin_names_exec(s, e + 1, out);
    }
    proof {
        assert(out.deep_view() =~= old(out).deep_view() + bin_names_spec(s@, i as int));
    }
}

/// What the produced-binary parse yields: the binaries and the record
/// without the fields it consumed. The binary-name field must be there —
/// it is what made the record a source record — and a package-list field,
/// when present, takes precedence as the richer source.
pub open spec fn take_package_list_spec(m: Seq<FieldView>) -> Option<
    (Seq<SourceBinaryV>, Seq<FieldView>),
> {
    if !has_key(m, "Binary"@) {
        None
    } else {
        let blines = lines_for(m, "Binary"@);
        let m1 = without_key(m, "Binary"@);
        if has_key(m1, "Package-List"@) {
            let pl = lines_for(m1, "Package-List"@);
            let m2 = without_key(m1, "Package-List"@);
            match pkg_list_lines_spec(pl, 0) {
                None => None,
                Some(bins) => Some((bins, m2)),
            }
        } else {
            Some((bin_names_spec(joined_spec(blines), 0), m1))
        }
    }
}

/// The error the produced-binary parse reports: a missing binary-name
/// field carries that key; otherwise the package-list field's own errors.
pub open spec fn take_package_list_err(m: Seq<FieldView>, e: ParseError) -> bool {
    if !has_key(m, "Binary"@) {
        e matches ParseError::MissingField { key } && key@ == "Binary"@
    } else {
        pkg_list_err(lines_for(without_key(m, "Binary"@), "Package-List"@), e)
    }
}

/// Takes the produced-binary fields out of the record and parses them.
pub fn take_package_list(map: &mut Paragraph) -> (r: Result<Vec<SourceBinary>, ParseError>)
    ensures
        match r {
            Ok(bins) => take_package_list_spec(old(map)@) == Some(
                (bins.deep_view(), final(map)@),
            ),
            Err(e) => take_package_list_spec(old(map)@) is None && take_package_list_err(
                old(map)@,
                e,
            ),
        },
{
    let blines = match map.take_all("Binary") {
        Ok(v) => v,
        Err(e) => {
            return Err(e);
        },
    };
    match map.remove("Package-List") {
        Some(pl) => pkg_list_lines_exec(&pl, 0),
        None => {
            let joined_names = joined(&blines);
            let mut out: Vec<SourceBinary> = Vec::new();
            bin_names_exec(joined_names.as_str(), 0, &mut out);
            proof {
                assert(out.deep_view() =~= Seq::<SourceBinaryV>::empty() + bin_names_spec(
                    joined_names@,
                    0,
                ));
            }
            Ok(out)
        },
    }
}

/// The mathematical image of one checksum line: digest, size and name.
#[verifier::ext_equal]
pub struct EntryV {
    pub digest: Seq<char>,
    pub size: u64,
    pub name: Seq<char>,
}

/// One parsed checksum line: a digest, a size and a file name.
#[derive(Clone, Debug)]
pub struct FileEntry {
    pub digest: String,
    pub size: u64,
    pub name: String,
}

impl View for FileEntry {
    type V = EntryV;

    open spec fn view(&self) -> EntryV {
        EntryV { digest: self.digest@, size: self.size, name: self.name@ }
    }
}

impl DeepView for FileEntry {
    type V = EntryV;

    open spec fn deep_view(&self) -> EntryV {
        self.view()
    }
}

/// The checksum entries of a field's lines: a blank line contributes
/// nothing, any other needs exactly digest, size and name columns with a
/// decimal size in range.
pub open spec fn entry_lines_spec(lines: Seq<Seq<char>>, i: int) -> Option<Seq<EntryV>>
    decreases lines.len() - i,
    when 0 <= i <= lines.len()
{
    if i >= lines.len() {
        Some(Seq::empty())
    } else {
        let toks = tokens_in(lines[i], 0, lines[i].len() as int);
        if toks.len() == 0 {
            entry_lines_spec(lines, i + 1)
        } else if toks.len() != 3 || !all_digits(toks[1]) || dec_val(toks[1]) > u64::MAX {
            None
        } else {
            match entry_lines_spec(lines, i + 1) {
                None => None,
                Some(rest) => Some(
                    seq![
                        EntryV {
                            digest: toks[0],
                            size: dec_val(toks[1]) as u64,
                            name: toks[2],
                        },
                    ] + rest,
                ),
            }
        }
    }
}

/// Reads the checksum entries from a field's lines.
fn entry_lines_exec(lines: &Vec<String>, i: usize) -> (r: Result<Vec<FileEntry>, ParseError>)
    requires
        i <= lines@.len(),
    ensures
        match r {
            Ok(es) => entry_lines_spec(lines.deep_view(), i as int) == Some(es.deep_view()),
            Err(e) => entry_lines_spec(lines.deep_view(), i as int) is None && entry_err(e),
        },
    decreases lines@.len() - i,
{
    let n = lines.len();
    if i >= n {
        let es: Vec<FileEntry> = Vec::new();
        proof {
            assert(es.deep_view() =~= Seq::<EntryV>::empty());
        }
        return Ok(es);
    }
    let toks = split_tokens(lines[i].as_str());
    if toks.len() == 0 {
        proof {
            assert(toks.deep_view().len() == 0);
        }
        return entry_lines_exec(lines, i + 1);
    }
    if toks.len() != 3 {
        return Err(ParseError::BadFileLine { line: lines[i].clone() });
    }
    let size = match parse_u64(toks[1].as_str()) {
        Ok(v) => v,
        Err(e) => {
            return Err(e);
        },
    };
    let entry = FileEntry { digest: toks[0].clone(), size, name: toks[2].clone() };
    match entry_lines_exec(lines, i + 1) {
        Err(e) => Err(e),
        Ok(rest0) => {
            let ghost before = rest0.deep_view();
            let mut rest = rest0;
            rest.insert(0, entry);
            proof {
                assert(rest.deep_view() =~= seq![entry@] + before);
            }
            Ok(rest)
        },
    }
}

/// The digest the entries declare for a name: the first matching entry's,
/// if any.
pub open spec fn lookup_digest(entries: Seq<EntryV>, name: Seq<char>) -> Option<Seq<char>>
    decreases entries.len(),
{
    if entries.len() == 0 {
        None
    } else if entries[0].name == name {
        Some(entries[0].digest)
    } else {
        lookup_digest(entries.drop_first(), name)
    }
}

/// Looks a file name up among checksum entries.
fn lookup_digest_exec(entries: &Vec<FileEntry>, name: &str) -> (r: Option<String>)
    ensures
        match r {
            Some(d) => lookup_digest(entries.deep_view(), name@) == Some(d@),
            None => lookup_digest(entries.deep_view(), name@) is None,
        },
{
    proof {
        assert(entries.deep_view().skip(0) =~= entries.deep_view());
    }
    lookup_digest_from(entries, 0, name)
}

/// Looks a file name up among the entries from position `i` on.
fn lookup_digest_from(entries: &Vec<FileEntry>, i: usize, name: &str) -> (r: Option<String>)
    requires
        i <= entries@.len(),
    ensures
        match r {
            Some(d) => lookup_digest(entries.deep_view().skip(i as int), name@) == Some(d@),
            None => lookup_digest(entries.deep_view().skip(i as int), name@) is None,
        },
    decreases entries@.len() - i,
{
    let n = entries.len();
    proof {
        assert(entries.deep_view().skip(i as int).len() == n - i);
        if i < n {
            assert(entries.deep_view().skip(i as int)[0] == entries.deep_view()[i as int]);
            assert(entries.deep_view().skip(i as int).drop_first() =~= entries.deep_view().skip(
                i + 1,
            ));
        }
    }
    if i >= n {
        return None;
    }
    if str_eq(entries[i].name.as_str(), name) {
        Some(entries[i].digest.clone())
    } else {
        lookup_digest_from(entries, i + 1, name)
    }
}

/// The file a driving entry stands for, with each digest looked up among
/// the four checksum lists.
pub open spec fn file_for(
    e: EntryV,
    md5s: Seq<EntryV>,
    sha1s: Seq<EntryV>,
    sha256s: Seq<EntryV>,
    sha512s: Seq<EntryV>,
) -> FileV {
    FileV {
        name: e.name,
        size: e.size,
        md5: lookup_digest(md5s, e.name),
        sha1: lookup_digest(sha1s, e.name),
        sha256: lookup_digest(sha256s, e.name),
        sha512: lookup_digest(sha512s, e.name),
    }
}

/// The files the driving entries stand for, in order.
pub open spec fn files_from(
    driver: Seq<EntryV>,
    i: int,
    md5s: Seq<EntryV>,
    sha1s: Seq<EntryV>,
    sha256s: Seq<EntryV>,
    sha512s: Seq<EntryV>,
) -> Seq<FileV>
    decreases driver.len() - i,
    when 0 <= i <= driver.len()
{
    if i >= driver.len() {
        Seq::empty()
    } else {
        seq![file_for(driver[i], md5s, sha1s, sha256s, sha512s)] + files_from(
            driver,
            i + 1,
            md5s,
            sha1s,
            sha256s,
            sha512s,
        )
    }
}

/// Builds the files the driving entries stand for.
fn files_from_exec(
    driver: &Vec<FileEntry>,
    i: usize,
    md5s: &Vec<FileEntry>,
    sha1s: &Vec<FileEntry>,
    sha256s: &Vec<FileEntry>,
    sha512s: &Vec<FileEntry>,
) -> (r: Vec<File>)
    requires
        i <= driver@.len(),
    ensures
        r.deep_view() == files_from(
            driver.deep_view(),
            i as int,
            md5s.deep_view(),
            sha1s.deep_view(),
            sha256s.deep_view(),
            sha512s.deep_view(),
        ),
    decreases driver@.len() - i,
{
    let n = driver.len();
    if i >= n {
        let fs: Vec<File> = Vec::new();
        proof {
            assert(fs.deep_view() =~= Seq::<FileV>::empty());
        }
        return fs;
    }
    let name = driver[i].name.clone();
    let f = File {
        name: name.clone(),
        size: driver[i].size,
        md5: lookup_digest_exec(md5s, name.as_str()),
        sha1: lookup_digest_exec(sha1s, name.as_str()),
        sha256: lookup_digest_exec(sha256s, name.as_str()),
        sha512: lookup_digest_exec(sha512s, name.as_str()),
    };
    proof {
        assert(md5s.deep_view().skip(0) =~= md5s.deep_view());
        assert(sha1s.deep_view().skip(0) =~= sha1s.deep_view());
        assert(sha256s.deep_view().skip(0) =~= sha256s.deep_view());
        assert(sha512s.deep_view().skip(0) =~= sha512s.deep_view());
    }
    let rest0 = files_from_exec(driver, i + 1, md5s, sha1s, sha256s, sha512s);
    let ghost before = rest0.deep_view();
    let mut rest = rest0;
    rest.insert(0, f);
    proof {
        assert(rest.deep_view() =~= seq![f@] + before);
    }
    rest
}

/// One checksum field taken out of the record: its parsed entries (none
/// when absent), whether it was there, and the record without it.
pub open spec fn take_entries_spec(m: Seq<FieldView>, key: Seq<char>) -> Option<
    (Seq<EntryV>, bool, Seq<FieldView>),
> {
    if !has_key(m, key) {
        Some((Seq::empty(), false, m))
    } else {
        match entry_lines_spec(lines_for(m, key), 0) {
            None => None,
            Some(es) => Some((es, true, without_key(m, key))),
        }
    }
}

/// Takes one checksum field out of the record and parses its entries.
fn take_entries(map: &mut Paragraph, key: &str) -> (r: Result<(Vec<FileEntry>, bool), ParseError>)
    ensures
        match r {
            Ok((es, present)) => take_entries_spec(old(map)@, key@) == Some(
                (es.deep_view(), present, final(map)@),
            ),
            Err(e) => take_entries_spec(old(map)@, key@) is None && entry_err(e),
        },
{
    match map.remove(key) {
        None => {
            let es: Vec<FileEntry> = Vec::new();
            proof {
                assert(es.deep_view() =~= Seq::<EntryV>::empty());
            }
            Ok((es, false))
        },
        Some(lines) => match entry_lines_exec(&lines, 0) {
            Err(e) => Err(e),
            Ok(es) => Ok((es, true)),
        },
    }
}

/// What the archive file-list parse yields: the files and the record
/// without the four checksum fields. The weak-digest field drives the
/// list when present, else the strong-digest field; with neither, the
/// list is empty.
pub open spec fn take_files_spec(m: Seq<FieldView>) -> Option<(Seq<FileV>, Seq<FieldView>)> {
    match take_entries_spec(m, "Files"@) {
        None => None,
        Some((md5s, has_md5, m1)) => match take_entries_spec(m1, "Checksums-Sha1"@) {
            None => None,
            Some((sha1s, _, m2)) => match take_entries_spec(m2, "Checksums-Sha256"@) {
                None => None,
                Some((sha256s, has_sha256, m3)) => match take_entries_spec(
                    m3,
                    "Checksums-Sha512"@,
                ) {
                    None => None,
                    Some((sha512s, _, m4)) => {
                        let driver = if has_md5 {
                            md5s
                        } else if has_sha256 {
                            sha256s
                        } else {
                            Seq::<EntryV>::empty()
                        };
                        Some((files_from(driver, 0, md5s, sha1s, sha256s, sha512s), m4))
                    },
                },
            },
        },
    }
}

/// Takes the archive file list out of the record: every checksum field is
/// consumed, and each listed file carries whichever digests the fields
/// declare for its name.
pub fn take_files(map: &mut Paragraph) -> (r: Result<Vec<File>, ParseError>)
    ensures
        match r {
            Ok(files) => take_files_spec(old(map)@) == Some((files.deep_view(), final(map)@)),
            Err(e) => take_files_spec(old(map)@) is None && entry_err(e),
        },
{
    let (md5s, has_md5) = match take_entries(map, "Files") {
        Ok(v) => v,
        Err(e) => {
            return Err(e);
        },
    };
    let (sha1s, _) = match take_entries(map, "Checksums-Sha1") {
        Ok(v) => v,
        Err(e) => {
            return Err(e);
        },
    };
    let (sha256s, has_sha256) = match take_entries(map, "Checksums-Sha256") {
        Ok(v) => v,
        Err(e) => {
            return Err(e);
        },
    };
    let (sha512s, _) = match take_entries(map, "Checksums-Sha512") {
        Ok(v) => v,
        Err(e) => {
            return Err(e);
        },
    };
    let driver = if has_md5 {
        &md5s
    } else if has_sha256 {
        &sha256s
    } else {
        let files: Vec<File> = Vec::new();
        proof {
            assert(files.deep_view() =~= Seq::<FileV>::empty());
        }
        return Ok(files);
    };
    Ok(files_from_exec(driver, 0, &md5s, &sha1s, &sha256s, &sha512s))
}

/// The mathematical image of a source package.
#[verifier::ext_equal]
pub struct SourceV {
    pub format: SourceFormat,
    pub binaries: Seq<SourceBinaryV>,
    pub files: Seq<FileV>,
    pub directory: Seq<char>,
    pub vcs: Seq<VcsView>,
    pub standards_version: Seq<char>,
    pub build_dep: Seq<DependencyView>,
    pub build_dep_arch: Seq<DependencyView>,
    pub build_dep_indep: Seq<DependencyView>,
    pub build_conflict: Seq<DependencyView>,
    pub build_conflict_arch: Seq<DependencyView>,
    pub build_conflict_indep: Seq<DependencyView>,
    pub uploaders: Seq<IdentityView>,
}

/// One source package: its build recipe metadata.
#[derive(Clone, Debug, PartialEq, Eq)]
pub struct Source {
    pub format: SourceFormat,
    pub binaries: Vec<SourceBinary>,
    pub files: Vec<File>,
    pub directory: String,
    pub vcs: Vec<Vcs>,
    pub standards_version: String,
    pub build_dep: Vec<Dependency>,
    pub build_dep_arch: Vec<Dependency>,
    pub build_dep_indep: Vec<Dependency>,
    pub build_conflict: Vec<Dependency>,
    pub build_conflict_arch: Vec<Dependency>,
    pub build_conflict_indep: Vec<Dependency>,
    pub uploaders: Vec<Identity>,
}

impl View for Source {
    type V = SourceV;

    open spec fn view(&self) -> SourceV {
        SourceV {
            format: self.format,
            binaries: self.binaries.deep_view(),
            files: self.files.deep_view(),
            directory: self.directory@,
            vcs: self.vcs.deep_view(),
            standards_version: self.standards_version@,
            build_dep: self.build_dep.deep_view(),
            build_dep_arch: self.build_dep_arch.deep_view(),
            build_dep_indep: self.build_dep_indep.deep_view(),
            build_conflict: self.build_conflict.deep_view(),
            build_conflict_arch: self.build_conflict_arch.deep_view(),
            build_conflict_indep: self.build_conflict_indep.deep_view(),
            uploaders: self.uploaders.deep_view(),
        }
    }
}

impl DeepView for Source {
    type V = SourceV;

    open spec fn deep_view(&self) -> SourceV {
        self.view()
    }
}

/// What parsing the source fields of a record yields: the source package
/// and the fields left over, or nothing when any field is malformed.
pub open spec fn parse_src_spec(m: Seq<FieldView>) -> Option<(SourceV, Seq<FieldView>)> {
    match req_line_spec(m, "Format"@) {
        None => None,
        Some((fline, m1)) => match format_of_token(fline) {
            None => None,
            Some(format) => match take_package_list_spec(m1) {
                None => None,
                Some((binaries, m2)) => match take_files_spec(m2) {
                    None => None,
                    Some((files, m3)) => match req_line_spec(m3, "Directory"@) {
                        None => None,
                        Some((directory, m4)) => match extract_vcs_from(m4, 0) {
                            None => None,
                            Some((vcs, m5)) => match req_line_spec(m5, "Standards-Version"@) {
                                None => None,
                                Some((standards_version, m6)) => match dep_field_spec(
                                    m6,
                                    "Build-Depends"@,
                                ) {
                                    None => None,
                                    Some((build_dep, m7)) => match dep_field_spec(
                                        m7,
                                        "Build-Depends-Arch"@,
                                    ) {
                                        None => None,
                                        Some((build_dep_arch, m8)) => match dep_field_spec(
                                            m8,
                                            "Build-Depends-Indep"@,
                                        ) {
                                            None => None,
                                            Some((build_dep_indep, m9)) => match dep_field_spec(
                                                m9,
                                                "Build-Conflicts"@,
                                            ) {
                                                None => None,
                                                Some((build_conflict, m10)) => match dep_field_spec(
                                                    m10,
                                                    "Build-Conflicts-Arch"@,
                                                ) {
                                                    None => None,
                                                    Some(
                                                        (build_conflict_arch, m11),
                                                    ) => match dep_field_spec(
                                                        m11,
                                                        "Build-Conflicts-Indep"@,
                                                    ) {
                                                        None => None,
                                                        Some(
                                                            (build_conflict_indep, m12),
                                                        ) => match ident_opt_spec(
                                                            m12,
                                                            "Uploaders"@,
                                                        ) {
                                                            None => None,
                                                            Some((uploaders, m13)) => Some(
                                                                (
                                                                    SourceV {
                                                                        format,
                                                                        binaries,
                                                                        files,
                                                                        directory,
                                                                        vcs,
                                                                        standards_version,
                                                                        build_dep,
                                                                        build_dep_arch,
                                                                        build_dep_indep,
                                                                        build_conflict,
                                                                        build_conflict_arch,
                                                                        build_conflict_indep,
                                                                        uploaders,
                                                                    },
                                                                    m13,
                                                                ),
                                                            ),
                                                        },
                                                    },
                                                },
                                            },
                                        },
                                    },
                                },
                            },
                        },
                    },
                },
            },
        },
    }
}

/// The error the source parse reports for a record, paired with the
/// first failing step of the field chain.
pub open spec fn parse_src_err(m: Seq<FieldView>, e: ParseError) -> bool {
    match req_line_spec(m, "Format"@) {
        None => line_err(m, "Format"@, e),
        Some((fline, m1)) => match format_of_token(fline) {
            None => e matches ParseError::UnknownFormat { token } && token@ == fline,
            Some(_) => match take_package_list_spec(m1) {
                None => take_package_list_err(m1, e),
                Some((_, m2)) => match take_files_spec(m2) {
                    None => entry_err(e),
                    Some((_, m3)) => match req_line_spec(m3, "Directory"@) {
                        None => line_err(m3, "Directory"@, e),
                        Some((_, m4)) => match extract_vcs_from(m4, 0) {
                            None => e matches ParseError::WrongLineCount { key } && vcs_of_key(
                                key@,
                            ) is Some,
                            Some((_, m5)) => match req_line_spec(m5, "Standards-Version"@) {
                                None => line_err(m5, "Standards-Version"@, e),
                                Some((_, m6)) => match dep_field_spec(m6, "Build-Depends"@) {
                                    None => dep_field_err(m6, "Build-Depends"@, e),
                                    Some((_, m7)) => match dep_field_spec(
                                        m7,
                                        "Build-Depends-Arch"@,
                                    ) {
                                        None => dep_field_err(m7, "Build-Depends-Arch"@, e),
                                        Some((_, m8)) => match dep_field_spec(
                                            m8,
                                            "Build-Depends-Indep"@,
                                        ) {
                                            None => dep_field_err(
                                                m8,
                                                "Build-Depends-Indep"@,
                                                e,
                                            ),
                                            Some((_, m9)) => match dep_field_spec(
                                                m9,
                                                "Build-Conflicts"@,
                                            ) {
                                                None => dep_field_err(m9, "Build-Conflicts"@, e),
                                                Some((_, m10)) => match dep_field_spec(
                                                    m10,
                                                    "Build-Conflicts-Arch"@,
                                                ) {
                                                    None => dep_field_err(
                                                        m10,
                                                        "Build-Conflicts-Arch"@,
                                                        e,
                                                    ),
                                                    Some((_, m11)) => match dep_field_spec(
                                                        m11,
                                                        "Build-Conflicts-Indep"@,
                                                    ) {
                                                        None => dep_field_err(
                                                            m11,
                                                            "Build-Conflicts-Indep"@,
                                                            e,
                                                        ),
                                                        Some((_, m12)) => match ident_opt_spec(
                                                            m12,
                                                            "Uploaders"@,
                                                        ) {
                                                            None => ident_opt_err(
                                                                m12,
                                                                "Uploaders"@,
                                                                e,
                                                            ),
                                                            Some(_) => false,
                                                        },
                                                    },
                                                },
                                            },
                                        },
                                    },
                                },
                            },
                        },
                    },
                },
            },
        },
    }
}

/// Parses the source fields of a record, consuming them; what stays in
/// the record is whatever the source parse does not know. A failure
/// carries the first failing field's own error.
pub fn parse_src(map: &mut Paragraph) -> (r: Result<Source, ParseError>)
    ensures
        match r {
            Ok(src) => parse_src_spec(old(map)@) == Some((src@, final(map)@)),
            Err(e) => parse_src_spec(old(map)@) is None && parse_src_err(old(map)@, e),
        },
{
    let fline = match map.take_one_line("Format") {
        Ok(v) => v,
        Err(e) => {
            return Err(e);
        },
    };
    let format = match parse_format(fline.as_str()) {
        Ok(v) => v,
        Err(e) => {
            return Err(e);
        },
    };
    let binaries = match take_package_list(map) {
        Ok(v) => v,
        Err(e) => {
            return Err(e);
        },
    };
    let files = match take_files(map) {
        Ok(v) => v,
        Err(e) => {
            return Err(e);
        },
    };
    let directory = match map.take_one_line("Directory") {
        Ok(v) => v,
        Err(e) => {
            return Err(e);
        },
    };
    let vcs = match crate::vcs::extract(map) {
        Ok(v) => v,
        Err(e) => {
            return Err(e);
        },
    };
    let standards_version = match map.take_one_line("Standards-Version") {
        Ok(v) => v,
        Err(e) => {
            return Err(e);
        },
    };
    let build_dep = match take_dep_field(map, "Build-Depends") {
        Ok(v) => v,
        Err(e) => {
            return Err(e);
        },
    };
    let build_dep_arch = match take_dep_field(map, "Build-Depends-Arch") {
        Ok(v) => v,
        Err(e) => {
            return Err(e);
        },
    };
    let build_dep_indep = match take_dep_field(map, "Build-Depends-Indep") {
        Ok(v) => v,
        Err(e) => {
            return Err(e);
        },
    };
    let build_conflict = match take_dep_field(map, "Build-Conflicts") {
        Ok(v) => v,
        Err(e) => {
            return Err(e);
        },
    };
    let build_conflict_arch = match take_dep_field(map, "Build-Conflicts-Arch") {
        Ok(v) => v,
        Err(e) => {
            return Err(e);
        },
    };
    let build_conflict_indep = match take_dep_field(map, "Build-Conflicts-Indep") {
        Ok(v) => v,
        Err(e) => {
            return Err(e);
        },
    };
    let uploaders = match take_ident_opt(map, "Uploaders") {
        Ok(v) => v,
        Err(e) => {
            return Err(e);
        },
    };
    let src = Source {
        format,
        binaries,
        files,
        directory,
        vcs,
        standards_version,
        build_dep,
        build_dep_arch,
        build_dep_indep,
        build_conflict,
        build_conflict_arch,
        build_conflict_indep,
        uploaders,
    };
    proof {
        let (sv, mv) = parse_src_spec(old(map)@).unwrap();
        assert(sv =~= src@);
    }
    Ok(src)
}

} // verus!
