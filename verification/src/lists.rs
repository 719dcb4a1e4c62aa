//! Resolving release entries into download units and verifying what comes
//! back.
//!
//! A `List` is one resolved index file: where to fetch it, how it is
//! compressed, and the digests its bytes must match before and after
//! decompression. Its local identity is the hexadecimal strong digest of
//! the decompressed content, which makes the store content-addressed: a
//! list already present is a cache hit and is skipped whole.

use vstd::prelude::*;
use vstd::slice::slice_to_vec;

use crate::Hashes;
use crate::checksum::ChecksumMismatch;
use crate::checksum::hashes_match;
use crate::checksum::hex_encode;
use crate::checksum::hex_of;
use crate::checksum::mismatch_describes;
use crate::checksum::sha256_of;
use crate::checksum::validate;
use crate::fetch::Download;
use crate::release::Release;
use crate::release::ReleaseContent;
use crate::release::has_name;
use crate::release::hashes_for;
use crate::release::lemma_last_index_with_name;
use crate::text::find_char;
use crate::text::find_char_from;
use crate::text::lemma_find_char;
use crate::text::lemma_rfind_char;
use crate::text::rfind_char;
use crate::text::rfind_char_before;
use crate::text::str_eq;

verus! {

/// How a resolved file is compressed on the remote side.
#[derive(Clone, Copy, Debug, PartialEq, Eq, Structural)]
pub enum Compression {
    Plain,
    Gz,
}

impl Compression {
    /// The file-name suffix of this codec.
    pub open spec fn suffix_spec(self) -> Seq<char> {
        match self {
            Compression::Plain => Seq::empty(),
            Compression::Gz => ".gz"@,
        }
    }

    /// Formats the codec's file-name suffix.
    pub fn suffix(&self) -> (r: &'static str)
        ensures
            r@ == self.suffix_spec(),
    {
        proof {
            reveal_strlit("");
            assert(""@ =~= Seq::<char>::empty());
        }
        match *self {
            Compression::Plain => "",
            Compression::Gz => ".gz",
        }
    }
}

/// One resolved download unit: remote locator, compression codec, and the
/// declared digests of the compressed and the decompressed content.
#[derive(Clone, Debug)]
pub struct List {
    pub url: String,
    pub codec: Compression,
    pub compressed_hashes: Hashes,
    pub decompressed_hashes: Hashes,
}

impl List {
    /// A list is well formed when an uncompressed download declares the
    /// same digests for both stages; resolution only builds such lists.
    pub open spec fn wf(self) -> bool {
        self.codec == Compression::Plain ==> self.compressed_hashes == self.decompressed_hashes
    }

    /// The content-addressed local name: the lowercase hexadecimal strong
    /// digest of the decompressed content.
    pub fn local_name(&self) -> (r: String)
        ensures
            r@ == hex_of(self.decompressed_hashes.sha256@),
    {
        hex_encode(self.decompressed_hashes.sha256.as_slice())
    }
}

/// Why an acquisition failed.
#[derive(Clone, Debug)]
pub enum AcquireError {
    /// The release document does not describe the named file.
    FileNotFoundInRelease { name: String },
    /// A digest disagreed at the named verification stage.
    Integrity { stage: VerifyStage, mismatch: ChecksumMismatch },
    /// The compressed bytes do not form a valid gzip stream.
    CorruptArchive,
}

/// Which verification stage a digest mismatch belongs to.
#[derive(Clone, Copy, Debug, PartialEq, Eq, Structural)]
pub enum VerifyStage {
    Compressed,
    Decompressed,
}

/// Where the path of a locator begins: just past the authority when the
/// locator carries a scheme and a double-slash authority, else at its
/// first slash; the length when it has no path at all.
pub open spec fn path_start(s: Seq<char>) -> int {
    let c = find_char(s, 0, ':');
    if c + 2 < s.len() && s[c + 1] == '/' && s[c + 2] == '/' {
        find_char(s, c + 3, '/')
    } else {
        find_char(s, 0, '/')
    }
}

/// `base` resolved against a relative `name`, as a relative path
/// reference resolves against a base URL: the base's path up to and
/// including its last slash, then `name` — so a base without a trailing
/// slash loses its last segment. A base without any path gains a root
/// slash before `name`.
pub open spec fn join_url(base: Seq<char>, name: Seq<char>) -> Seq<char> {
    let ps = path_start(base);
    if ps >= base.len() {
        base + seq!['/'] + name
    } else {
        base.subrange(0, rfind_char(base, base.len() as int, '/') + 1) + name
    }
}

/// Resolves one more segment against a base URL.
pub fn url_join(base: &str, name: &str) -> (r: String)
    ensures
        r@ == join_url(base@, name@),
{
    proof {
        lemma_find_char(base@, 0, ':');
    }
    let n = base.unicode_len();
    let c = find_char_from(base, 0, ':');
    let ps: usize;
    if n > 2 && c < n - 2 && base.get_char(c + 1) == '/' && base.get_char(c + 2) == '/' {
        proof {
            lemma_find_char(base@, c + 3, '/');
        }
        ps = find_char_from(base, c + 3, '/');
    } else {
        proof {
            lemma_find_char(base@, 0, '/');
        }
        ps = find_char_from(base, 0, '/');
    }
    proof {
        assert(ps == path_start(base@));
    }
    if ps >= n {
        let mut out = base.to_owned();
        proof {
            reveal_strlit("/");
            assert("/"@ =~= seq!['/']);
        }
        out.append("/");
        out.append(name);
        out
    } else {
        proof {
            assert(base@[ps as int] == '/');
            lemma_rfind_char(base@, n as int, '/');
        }
        let ls = match rfind_char_before(base, n, '/') {
            Some(i) => i,
            None => 0,  // unreachable: the path start is a slash
        };
        let mut out = base.substring_char(0, ls + 1).to_owned();
        out.append(name);
        out
    }
}

/// `base` with `name` appended as one more path segment: a separating
/// slash is added unless `base` already ends in one. For filesystem
/// paths, where no segment is ever replaced.
pub open spec fn join_path(base: Seq<char>, name: Seq<char>) -> Seq<char> {
    if base.len() > 0 && base.last() == '/' {
        base + name
    } else {
        base + seq!['/'] + name
    }
}

/// Joins a directory path with one more segment.
pub fn path_join(base: &str, name: &str) -> (r: String)
    ensures
        r@ == join_path(base@, name@),
{
    let n = base.unicode_len();
    let mut out = base.to_owned();
    if n == 0 || base.get_char(n - 1) != '/' {
        proof {
            reveal_strlit("/");
            assert("/"@ =~= seq!['/']);
        }
        out.append("/");
    }
    out.append(name);
    out
}

/// How `find_file` resolves one base name against a release's content
/// list: prefer the gzip-suffixed entry, else fall back to the raw entry
/// for both stages.
pub open spec fn resolved_list(
    l: List,
    base_url: Seq<char>,
    contents: Seq<ReleaseContent>,
    base: Seq<char>,
) -> bool {
    let gz_name = base + ".gz"@;
    &&& has_name(contents, base)
    &&& if has_name(contents, gz_name) {
        &&& l.codec == Compression::Gz
        &&& l.compressed_hashes == hashes_for(contents, gz_name)
        &&& l.decompressed_hashes == hashes_for(contents, base)
        &&& l.url@ == join_url(base_url, gz_name)
    } else {
        &&& l.codec == Compression::Plain
        &&& l.compressed_hashes == hashes_for(contents, base)
        &&& l.decompressed_hashes == hashes_for(contents, base)
        &&& l.url@ == join_url(base_url, base)
    }
}

/// Resolves one base name against a release's content list. A gzip entry
/// is preferred: the list then downloads the `.gz` name and carries both
/// entry's digests. Without one, the raw entry serves both stages. A base
/// name the document does not describe at all is a hard error.
pub fn find_file(base_url: &str, contents: &Vec<ReleaseContent>, base: &str) -> (r: Result<
    List,
    AcquireError,
>)
    ensures
        r is Ok <==> has_name(contents@, base@),
        r matches Ok(l) ==> resolved_list(l, base_url@, contents@, base@) && l.wf(),
        r matches Err(e) ==> e matches AcquireError::FileNotFoundInRelease { name } && name@
            == base@,
{
    let ghost gz_name_spec: Seq<char> = base@ + ".gz"@;
    proof {
        reveal_strlit(".gz");
        assert(gz_name_spec.len() == base@.len() + 3);
    }
    let mut gz_name = base.to_owned();
    gz_name.append(Compression::Gz.suffix());
    let mut raw_hashes: Option<Hashes> = None;
    let mut gz_hashes: Option<Hashes> = None;
    let n = contents.len();
    let mut i: usize = 0;
    while i < n
        invariant
            n == contents@.len(),
            0 <= i <= n,
            gz_name@ == gz_name_spec,
            gz_name_spec == base@ + ".gz"@,
            gz_name_spec != base@,
            match raw_hashes {
                Some(h) => has_name(contents@.take(i as int), base@) && h == hashes_for(
                    contents@.take(i as int),
                    base@,
                ),
                None => !has_name(contents@.take(i as int), base@),
            },
            match gz_hashes {
                Some(h) => has_name(contents@.take(i as int), gz_name_spec) && h == hashes_for(
                    contents@.take(i as int),
                    gz_name_spec,
                ),
                None => !has_name(contents@.take(i as int), gz_name_spec),
            },
        decreases n - i,
    {
        proof {
            assert(contents@.take(i + 1).drop_last() =~= contents@.take(i as int));
            assert(contents@.take(i + 1).last() == contents@[i as int]);
            lemma_last_index_with_name(contents@.take(i as int), base@);
            lemma_last_index_with_name(contents@.take(i as int), gz_name_spec);
            lemma_last_index_with_name(contents@.take(i + 1), base@);
            lemma_last_index_with_name(contents@.take(i + 1), gz_name_spec);
        }
        let entry = &contents[i];
        if str_eq(entry.name.as_str(), base) {
            raw_hashes = Some(entry.hashes);
        } else if str_eq(entry.name.as_str(), gz_name.as_str()) {
            gz_hashes = Some(entry.hashes);
        }
        i = i + 1;
    }
    proof {
        assert(contents@.take(n as int) =~= contents@);
    }
    match raw_hashes {
        Some(raw) => {
            match gz_hashes {
                Some(gz) => Ok(
                    List {
                        url: url_join(base_url, gz_name.as_str()),
                        codec: Compression::Gz,
                        compressed_hashes: gz,
                        decompressed_hashes: raw,
                    },
                ),
                None => Ok(
                    List {
                        url: url_join(base_url, base),
                        codec: Compression::Plain,
                        compressed_hashes: raw,
                        decompressed_hashes: raw,
                    },
                ),
            }
        },
        None => Err(AcquireError::FileNotFoundInRelease { name: base.to_owned() }),
    }
}

/// Whether every base name a release asks for is described by its content
/// list.
pub open spec fn release_ok(r: Release) -> bool {
    forall|j: int|
        0 <= j < r.file_names@.len() ==> has_name(r.contents@, #[trigger] r.file_names@[j]@)
}

/// Whether position `j` of release `i` asks for the first base name, in
/// release-major order, that its release's content list does not
/// describe: everything before it resolves, this one does not.
pub open spec fn first_unresolved(releases: Seq<Release>, i: int, j: int) -> bool {
    &&& 0 <= i < releases.len()
    &&& 0 <= j < releases[i].file_names@.len()
    &&& !has_name(releases[i].contents@, releases[i].file_names@[j]@)
    &&& forall|a: int| 0 <= a < i ==> release_ok(#[trigger] releases[a])
    &&& forall|b: int|
        0 <= b < j ==> has_name(releases[i].contents@, #[trigger] releases[i].file_names@[b]@)
}

/// How many base names the releases before position `i` ask for in all.
pub open spec fn names_before(releases: Seq<Release>, i: int) -> int
    decreases i,
{
    if i <= 0 {
        0
    } else {
        names_before(releases, i - 1) + releases[i - 1].file_names@.len()
    }
}

/// `names_before` grows with its position.
pub proof fn lemma_names_before_mono(releases: Seq<Release>, a: int, b: int)
    requires
        0 <= a <= b,
    ensures
        names_before(releases, a) <= names_before(releases, b),
        names_before(releases, 0) == 0,
    decreases b - a,
{
    if a < b {
        lemma_names_before_mono(releases, a + 1, b);
    }
}

/// Resolves every base name of every tracked release, in order: the output
/// holds one list per (release, base name) pair, release-major. The first
/// name a release document does not describe fails the batch.
pub fn find_files(releases: &Vec<Release>) -> (r: Result<Vec<List>, AcquireError>)
    ensures
        r is Ok <==> (forall|i: int| 0 <= i < releases@.len() ==> release_ok(#[trigger] releases@[i])),
        r matches Ok(ls) ==> {
            &&& ls@.len() == names_before(releases@, releases@.len() as int)
            &&& forall|i: int, j: int|
                0 <= i < releases@.len() && 0 <= j < releases@[i].file_names@.len()
                    ==> resolved_list(
                    #[trigger] ls@[names_before(releases@, i) + j],
                    releases@[i].dists_url@,
                    releases@[i].contents@,
                    releases@[i].file_names@[j]@,
                ) && ls@[names_before(releases@, i) + j].wf()
        },
        r matches Err(e) ==> (e matches AcquireError::FileNotFoundInRelease { name }
            && exists|i: int, j: int|
            #[trigger] first_unresolved(releases@, i, j) && name@ == releases@[i].file_names@[j]@),
{
    let mut lists: Vec<List> = Vec::new();
    let n = releases.len();
    let mut i: usize = 0;
    while i < n
        invariant
            n == releases@.len(),
            0 <= i <= n,
            lists@.len() == names_before(releases@, i as int),
            forall|a: int| 0 <= a < i ==> release_ok(#[trigger] releases@[a]),
            forall|a: int, b: int|
                0 <= a < i && 0 <= b < releases@[a].file_names@.len() ==> resolved_list(
                    #[trigger] lists@[names_before(releases@, a) + b],
                    releases@[a].dists_url@,
                    releases@[a].contents@,
                    releases@[a].file_names@[b]@,
                ) && lists@[names_before(releases@, a) + b].wf(),
        decreases n - i,
    {
        let release = &releases[i];
        let m = release.file_names.len();
        let mut j: usize = 0;
        while j < m
            invariant
                n == releases@.len(),
                0 <= i < n,
                m == releases@[i as int].file_names@.len(),
                0 <= j <= m,
                release == &releases@[i as int],
                lists@.len() == names_before(releases@, i as int) + j,
                forall|a: int| 0 <= a < i ==> release_ok(#[trigger] releases@[a]),
                forall|a: int, b: int|
                    0 <= a < i && 0 <= b < releases@[a].file_names@.len() ==> resolved_list(
                        #[trigger] lists@[names_before(releases@, a) + b],
                        releases@[a].dists_url@,
                        releases@[a].contents@,
                        releases@[a].file_names@[b]@,
                    ) && lists@[names_before(releases@, a) + b].wf(),
                forall|b: int|
                    0 <= b < j ==> has_name(
                        releases@[i as int].contents@,
                        #[trigger] releases@[i as int].file_names@[b]@,
                    ),
                forall|b: int|
                    0 <= b < j ==> resolved_list(
                        #[trigger] lists@[names_before(releases@, i as int) + b],
                        releases@[i as int].dists_url@,
                        releases@[i as int].contents@,
                        releases@[i as int].file_names@[b]@,
                    ) && lists@[names_before(releases@, i as int) + b].wf(),
            decreases m - j,
        {
            let name = &release.file_names[j];
            match find_file(release.dists_url.as_str(), &release.contents, name.as_str()) {
                Ok(list) => {
                    proof {
                        lemma_names_before_mono(releases@, 0, i as int);
                        assert forall|a: int| 0 <= a < i implies 0 <= names_before(releases@, a)
                            && names_before(releases@, a) + releases@[a].file_names@.len()
                            <= names_before(releases@, i as int) by {
                            lemma_names_before_mono(releases@, 0, a);
                            lemma_names_before_mono(releases@, a + 1, i as int);
                        }
                    }
                    lists.push(list);
                },
                Err(e) => {
                    proof {
                        assert(!release_ok(releases@[i as int]));
                        assert(first_unresolved(releases@, i as int, j as int));
                    }
                    return Err(e);
                },
            }
            j = j + 1;
        }
        i = i + 1;
    }
    Ok(lists)
}

/// What gzip decompression of a byte stream yields, as the flate2 crate
/// computes it: the decompressed bytes, or nothing for a corrupt stream.
pub uninterp spec fn gunzip_of(data: Seq<u8>) -> Option<Seq<u8>>;

/// Relies on flate2::bufread::GzDecoder: decompression is a function of
/// the compressed bytes alone, and a corrupt stream is an error.
#[verifier::external_body]
fn gunzip(data: &[u8]) -> (r: Result<Vec<u8>, ()>)
    ensures
        match r {
            Ok(v) => gunzip_of(data@) == Some(v@),
            Err(()) => gunzip_of(data@) is None,
        },
{
    let mut out = Vec::new();
    let mut decoder = flate2::bufread::GzDecoder::new(data);
    match std::io::Read::read_to_end(&mut decoder, &mut out) {
        Ok(_) => Ok(out),
        Err(_) => Err(()),
    }
}

/// Turns fetched bytes into the bytes the store may hold for a list:
/// verify the compressed stage, decompress if the list is gzip-coded, and
/// verify the decompressed stage. Nothing is handed out before every
/// applicable digest agrees; for a well-formed list, what comes out always
/// hashes to the list's declared strong decompressed digest.
pub fn prepare_list_content(list: &List, fetched: &[u8]) -> (r: Result<Vec<u8>, AcquireError>)
    ensures
        r is Ok <==> (hashes_match(fetched@, list.compressed_hashes) && (list.codec
            == Compression::Gz ==> (gunzip_of(fetched@) matches Some(d) && hashes_match(
            d,
            list.decompressed_hashes,
        )))),
        r matches Ok(content) ==> {
            &&& hashes_match(fetched@, list.compressed_hashes)
            &&& match list.codec {
                Compression::Plain => content@ == fetched@,
                Compression::Gz => gunzip_of(fetched@) == Some(content@) && hashes_match(
                    content@,
                    list.decompressed_hashes,
                ),
            }
            &&& (list.wf() ==> sha256_of(content@) == list.decompressed_hashes.sha256@)
        },
        r matches Err(e) ==> if !hashes_match(fetched@, list.compressed_hashes) {
            e matches AcquireError::Integrity { stage, mismatch } && stage
                == VerifyStage::Compressed && mismatch_describes(
                fetched@,
                list.compressed_hashes,
                mismatch,
            )
        } else if gunzip_of(fetched@) is None {
            list.codec == Compression::Gz && e matches AcquireError::CorruptArchive
        } else {
            list.codec == Compression::Gz && (e matches AcquireError::Integrity {
                stage,
                mismatch,
            } && stage == VerifyStage::Decompressed && mismatch_describes(
                gunzip_of(fetched@).unwrap(),
                list.decompressed_hashes,
                mismatch,
            ))
        },
{
    match validate(fetched, &list.compressed_hashes) {
        Err(m) => Err(AcquireError::Integrity { stage: VerifyStage::Compressed, mismatch: m }),
        Ok(()) => match list.codec {
            Compression::Plain => Ok(slice_to_vec(fetched)),
            Compression::Gz => match gunzip(fetched) {
                Err(()) => Err(AcquireError::CorruptArchive),
                Ok(content) => match validate(content.as_slice(), &list.decompressed_hashes) {
                    Err(m) => Err(
                        AcquireError::Integrity {
                            stage: VerifyStage::Decompressed,
                            mismatch: m,
                        },
                    ),
                    Ok(()) => Ok(content),
                },
            },
        },
    }
}

/// Whether the store already holds a file of the given content-addressed
/// name.
pub open spec fn name_present(present: Seq<String>, name: Seq<char>) -> bool {
    exists|k: int| 0 <= k < present.len() && #[trigger] present[k]@ == name
}

/// Looks a content-addressed name up among those present in the store.
pub fn contains_name(present: &Vec<String>, name: &str) -> (r: bool)
    ensures
        r == name_present(present@, name@),
{
    let n = present.len();
    let mut k: usize = 0;
    while k < n
        invariant
            n == present@.len(),
            0 <= k <= n,
            forall|t: int| 0 <= t < k ==> #[trigger] present@[t]@ != name@,
        decreases n - k,
    {
        if str_eq(present[k].as_str(), name) {
            return true;
        }
        k = k + 1;
    }
    false
}

/// The positions, in order, of the lists whose content-addressed name is
/// not yet in the store: exactly those a fresh acquisition must download.
pub open spec fn missing_indices(lists: Seq<List>, present: Seq<String>) -> Seq<int>
    decreases lists.len(),
{
    if lists.len() == 0 {
        Seq::empty()
    } else {
        let rest = missing_indices(lists.drop_last(), present);
        if name_present(present, hex_of(lists.last().decompressed_hashes.sha256@)) {
            rest
        } else {
            rest.push(lists.len() - 1)
        }
    }
}

/// Every planned position is a position of the input.
pub proof fn lemma_missing_indices_bounds(lists: Seq<List>, present: Seq<String>)
    ensures
        forall|k: int|
            0 <= k < missing_indices(lists, present).len() ==> 0 <= #[trigger] missing_indices(
                lists,
                present,
            )[k] < lists.len(),
    decreases lists.len(),
{
    if lists.len() > 0 {
        lemma_missing_indices_bounds(lists.drop_last(), present);
        let rest = missing_indices(lists.drop_last(), present);
        assert forall|k: int| 0 <= k < missing_indices(lists, present).len() implies 0 <= (
        #[trigger] missing_indices(lists, present)[k]) < lists.len() by {
            if k < rest.len() {
                assert(missing_indices(lists, present)[k] == rest[k]);
                assert(0 <= rest[k] < lists.drop_last().len());
            } else {
                assert(missing_indices(lists, present)[k] == lists.len() - 1);
            }
        }
    }
}

/// Law: acquisition is idempotent at the planning stage. A list whose
/// content-addressed name is already in the store is planned for no
/// download at all — no network request and no re-verification touches it.
pub proof fn lemma_present_list_not_planned(lists: Seq<List>, present: Seq<String>, i: int)
    requires
        0 <= i < lists.len(),
        name_present(present, hex_of(lists[i].decompressed_hashes.sha256@)),
    ensures
        forall|k: int|
            0 <= k < missing_indices(lists, present).len() ==> #[trigger] missing_indices(
                lists,
                present,
            )[k] != i,
    decreases lists.len(),
{
    lemma_missing_indices_bounds(lists.drop_last(), present);
    if i < lists.len() - 1 {
        assert(lists.drop_last()[i] == lists[i]);
        lemma_present_list_not_planned(lists.drop_last(), present, i);
    }
    let rest = missing_indices(lists.drop_last(), present);
    assert forall|k: int| 0 <= k < missing_indices(lists, present).len() implies (
    #[trigger] missing_indices(lists, present)[k]) != i by {
        if k < rest.len() {
            assert(missing_indices(lists, present)[k] == rest[k]);
            assert(0 <= rest[k] < lists.drop_last().len());
        } else {
            assert(missing_indices(lists, present)[k] == lists.len() - 1);
            assert(!name_present(present, hex_of(lists.last().decompressed_hashes.sha256@)));
        }
    }
}

/// Plans the downloads an acquisition still needs: one per list whose
/// content-addressed name is absent from the store, in input order, each
/// aimed at that name inside the staging directory.
pub fn plan_downloads(lists: &Vec<List>, present: &Vec<String>, staging_dir: &str) -> (r: Vec<
    Download,
>)
    ensures
        r@.len() == missing_indices(lists@, present@).len(),
        forall|k: int|
            0 <= k < r@.len() ==> {
                let idx = missing_indices(lists@, present@)[k];
                &&& 0 <= idx < lists@.len()
                &&& (#[trigger] r@[k]).from@ == lists@[idx].url@
                &&& r@[k].to@ == join_path(
                    staging_dir@,
                    hex_of(lists@[idx].decompressed_hashes.sha256@),
                )
            },
{
    let n = lists.len();
    let mut out: Vec<Download> = Vec::new();
    let mut i: usize = 0;
    while i < n
        invariant
            n == lists@.len(),
            0 <= i <= n,
            out@.len() == missing_indices(lists@.take(i as int), present@).len(),
            forall|k: int|
                0 <= k < out@.len() ==> {
                    let idx = missing_indices(lists@.take(i as int), present@)[k];
                    &&& 0 <= idx < i
                    &&& (#[trigger] out@[k]).from@ == lists@[idx].url@
                    &&& out@[k].to@ == join_path(
                        staging_dir@,
                        hex_of(lists@[idx].decompressed_hashes.sha256@),
                    )
                },
        decreases n - i,
    {
        proof {
            assert(lists@.take(i + 1).drop_last() =~= lists@.take(i as int));
            assert(lists@.take(i + 1).last() == lists@[i as int]);
            lemma_missing_indices_bounds(lists@.take(i as int), present@);
        }
        let local = lists[i].local_name();
        if !contains_name(present, local.as_str()) {
            let to = path_join(staging_dir, local.as_str());
            out.push(Download { from: lists[i].url.clone(), to });
        }
        i = i + 1;
    }
    proof {
        assert(lists@.take(n as int) =~= lists@);
        lemma_missing_indices_bounds(lists@, present@);
    }
    out
}

} // verus!
