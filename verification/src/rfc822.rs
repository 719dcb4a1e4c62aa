//! The paragraph-oriented record format of archive metadata.
//!
//! A record text is a run of paragraphs separated by blank lines; each
//! paragraph is an ordered mapping from field name to one or more raw
//! lines. A line indented with space or tab continues the previous field,
//! preserving the first-line-plus-folded-lines structure. Field names keep
//! their case.

use vstd::prelude::*;

use crate::ParseError;
use crate::text::find_char;
use crate::text::find_char_from;
use crate::text::is_space;
use crate::text::lemma_find_char;
use crate::text::skip_chars;
use crate::text::skip_while_spaces;
use crate::text::str_eq;
use crate::text::trim_substring;
use crate::text::trimmed;

verus! {

/// The mathematical image of a field: its name and its raw lines.
#[verifier::ext_equal]
pub struct FieldView {
    pub name: Seq<char>,
    pub lines: Seq<Seq<char>>,
}

/// One field of a paragraph: a name and the raw lines holding its value,
/// the first line first, folded continuation lines after it.
#[derive(Clone, Debug)]
pub struct Field {
    pub name: String,
    pub lines: Vec<String>,
}

impl View for Field {
    type V = FieldView;

    open spec fn view(&self) -> FieldView {
        FieldView { name: self.name@, lines: self.lines.deep_view() }
    }
}

impl DeepView for Field {
    type V = FieldView;

    open spec fn deep_view(&self) -> FieldView {
        self.view()
    }
}

/// One scanned paragraph: an ordered mapping from field name to lines.
/// Lookups and removals act on the first field of a name; a later field
/// of the same name stays where it is until asked for again.
#[derive(Clone, Debug)]
pub struct Paragraph {
    pub fields: Vec<Field>,
}

impl View for Paragraph {
    type V = Seq<FieldView>;

    open spec fn view(&self) -> Seq<FieldView> {
        self.fields.deep_view()
    }
}

impl DeepView for Paragraph {
    type V = Seq<FieldView>;

    open spec fn deep_view(&self) -> Seq<FieldView> {
        self.view()
    }
}

/// The position of the first field named `key`; negative when none is.
pub open spec fn find_key(fields: Seq<FieldView>, key: Seq<char>) -> int
    decreases fields.len(),
{
    if fields.len() == 0 {
        -1
    } else if fields[0].name == key {
        0
    } else {
        let r = find_key(fields.drop_first(), key);
        if r < 0 {
            -1
        } else {
            r + 1
        }
    }
}

/// Whether the paragraph has a field named `key`.
pub open spec fn has_key(fields: Seq<FieldView>, key: Seq<char>) -> bool {
    find_key(fields, key) >= 0
}

/// The lines of the first field named `key`.
pub open spec fn lines_for(fields: Seq<FieldView>, key: Seq<char>) -> Seq<Seq<char>>
    recommends
        has_key(fields, key),
{
    fields[find_key(fields, key)].lines
}

/// The paragraph without the first field named `key`; unchanged when no
/// field carries it.
pub open spec fn without_key(fields: Seq<FieldView>, key: Seq<char>) -> Seq<FieldView> {
    if has_key(fields, key) {
        fields.remove(find_key(fields, key))
    } else {
        fields
    }
}

/// What `find_key` returns: the first position whose field carries the
/// name, or negative when none does.
pub proof fn lemma_find_key(fields: Seq<FieldView>, key: Seq<char>)
    ensures
        -1 <= find_key(fields, key) < fields.len(),
        find_key(fields, key) >= 0 ==> fields[find_key(fields, key)].name == key,
        forall|k: int|
            0 <= k < fields.len() && k < find_key(fields, key) ==> (#[trigger] fields[k]).name
                != key,
        find_key(fields, key) == -1 ==> forall|k: int|
            0 <= k < fields.len() ==> (#[trigger] fields[k]).name != key,
    decreases fields.len(),
{
    if fields.len() > 0 && fields[0].name != key {
        lemma_find_key(fields.drop_first(), key);
        assert forall|k: int| 0 <= k < fields.len() && k < find_key(fields, key) implies (
        #[trigger] fields[k]).name != key by {
            if k > 0 {
                assert(fields.drop_first()[k - 1] == fields[k]);
            }
        }
        if find_key(fields, key) == -1 {
            assert forall|k: int| 0 <= k < fields.len() implies (#[trigger] fields[k]).name
                != key by {
                if k > 0 {
                    assert(fields.drop_first()[k - 1] == fields[k]);
                }
            }
        }
    }
}

/// Copies a line list, keeping every line's characters.
pub fn clone_lines(v: &Vec<String>) -> (r: Vec<String>)
    ensures
        r.deep_view() == v.deep_view(),
{
    let n = v.len();
    let mut out: Vec<String> = Vec::new();
    proof {
        assert(out.deep_view() =~= v.deep_view().take(0));
    }
    let mut i: usize = 0;
    while i < n
        invariant
            n == v@.len(),
            0 <= i <= n,
            out@.len() == i,
            out.deep_view() == v.deep_view().take(i as int),
        decreases n - i,
    {
        let line = v[i].clone();
        assert(line@ == v@[i as int]@);
        let ghost pre = out@;
        let ghost pre_deep = out.deep_view();
        out.push(line);
        proof {
            assert forall|k: int| 0 <= k < out@.len() implies out.deep_view()[k]
                == v.deep_view().take(i + 1)[k] by {
                assert(out.deep_view()[k] == out@[k].deep_view());
                if k < i {
                    assert(out@[k] == pre[k]);
                    assert(pre_deep[k] == pre[k].deep_view());
                }
            }
            assert(out.deep_view().len() == v.deep_view().take(i + 1).len());
            assert(out.deep_view() =~= v.deep_view().take(i + 1));
        }
        i = i + 1;
    }
    proof {
        assert(v.deep_view().take(n as int) =~= v.deep_view());
    }
    out
}

impl Field {
    /// Copies the field, keeping its name and lines.
    pub fn duplicate(&self) -> (r: Field)
        ensures
            r@ == self@,
    {
        Field { name: self.name.clone(), lines: clone_lines(&self.lines) }
    }
}

impl Paragraph {
    /// An empty paragraph, for building records by hand.
    pub fn new() -> (r: Paragraph)
        ensures
            r@ == Seq::<FieldView>::empty(),
    {
        let fields: Vec<Field> = Vec::new();
        proof {
            assert(fields.deep_view() =~= Seq::<FieldView>::empty());
        }
        Paragraph { fields }
    }

    /// Appends a field; record building, not scanning.
    pub fn push_field(&mut self, field: Field)
        ensures
            final(self)@ == old(self)@.push(field@),
    {
        self.fields.push(field);
        proof {
            assert(self.fields.deep_view() =~= old(self).fields.deep_view().push(field@));
        }
    }

    /// The position of the first field named `key`, if any.
    fn index_of(&self, key: &str) -> (r: Option<usize>)
        ensures
            match r {
                Some(i) => i < self@.len() && find_key(self@, key@) == i,
                None => !has_key(self@, key@),
            },
    {
        proof {
            lemma_find_key(self@, key@);
        }
        let n = self.fields.len();
        let mut i: usize = 0;
        while i < n
            invariant
                n == self.fields@.len(),
                0 <= i <= n,
                forall|k: int| 0 <= k < i ==> (#[trigger] self@[k]).name != key@,
            decreases n - i,
        {
            if str_eq(self.fields[i].name.as_str(), key) {
                proof {
                    lemma_find_key(self@, key@);
                    assert(self@[i as int].name == key@);
                }
                return Some(i);
            }
            i = i + 1;
        }
        proof {
            lemma_find_key(self@, key@);
        }
        None
    }

    /// Whether a field named `key` is present.
    pub fn contains_key(&self, key: &str) -> (r: bool)
        ensures
            r == has_key(self@, key@),
    {
        match self.index_of(key) {
            Some(_) => true,
            None => false,
        }
    }

    /// Removes the first field named `key` and hands its lines out;
    /// nothing changes when the paragraph has no such field.
    pub fn remove(&mut self, key: &str) -> (r: Option<Vec<String>>)
        ensures
            match r {
                Some(lines) => has_key(old(self)@, key@) && lines.deep_view() == lines_for(
                    old(self)@,
                    key@,
                ) && final(self)@ == without_key(old(self)@, key@),
                None => !has_key(old(self)@, key@) && final(self)@ == old(self)@,
            },
    {
        match self.index_of(key) {
            Some(i) => {
                let field = self.fields.remove(i);
                proof {
                    assert(self.fields.deep_view() =~= old(self).fields.deep_view().remove(
                        i as int,
                    ));
                }
                Some(field.lines)
            },
            None => None,
        }
    }

    /// Removes a field that must be present: its absence is an error
    /// naming the key.
    pub fn take_all(&mut self, key: &str) -> (r: Result<Vec<String>, ParseError>)
        ensures
            match r {
                Ok(lines) => has_key(old(self)@, key@) && lines.deep_view() == lines_for(
                    old(self)@,
                    key@,
                ) && final(self)@ == without_key(old(self)@, key@),
                Err(e) => !has_key(old(self)@, key@) && final(self)@ == old(self)@ && (e
                    matches ParseError::MissingField { key: k } && k@ == key@),
            },
    {
        match self.remove(key) {
            Some(lines) => Ok(lines),
            None => Err(ParseError::MissingField { key: key.to_owned() }),
        }
    }

    /// Removes a field that must be present with exactly one line, and
    /// hands that line out. Absence and a wrong line count are distinct
    /// errors; the paragraph is unchanged on either.
    pub fn take_one_line(&mut self, key: &str) -> (r: Result<String, ParseError>)
        ensures
            match r {
                Ok(s) => {
                    &&& has_key(old(self)@, key@)
                    &&& lines_for(old(self)@, key@).len() == 1
                    &&& s@ == lines_for(old(self)@, key@)[0]
                    &&& final(self)@ == without_key(old(self)@, key@)
                },
                Err(e) => final(self)@ == old(self)@ && match e {
                    ParseError::MissingField { key: k } => !has_key(old(self)@, key@) && k@
                        == key@,
                    ParseError::WrongLineCount { key: k } => has_key(old(self)@, key@)
                        && lines_for(old(self)@, key@).len() != 1 && k@ == key@,
                    _ => false,
                },
            },
    {
        match self.index_of(key) {
            None => Err(ParseError::MissingField { key: key.to_owned() }),
            Some(i) => {
                if self.fields[i].lines.len() != 1 {
                    return Err(ParseError::WrongLineCount { key: key.to_owned() });
                }
                let mut field = self.fields.remove(i);
                proof {
                    assert(self.fields.deep_view() =~= old(self).fields.deep_view().remove(
                        i as int,
                    ));
                }
                match field.lines.pop() {
                    Some(s) => Ok(s),
                    None => Err(ParseError::WrongLineCount { key: key.to_owned() }),  // unreachable: one line is there
                }
            },
        }
    }

    /// Removes an optional single-line field: absent is fine, several
    /// lines are an error naming the key. The paragraph changes exactly
    /// when the line is handed out.
    pub fn remove_one_line(&mut self, key: &str) -> (r: Result<Option<String>, ParseError>)
        ensures
            match r {
                Ok(opt) => match opt {
                    Some(s) => {
                        &&& has_key(old(self)@, key@)
                        &&& lines_for(old(self)@, key@).len() == 1
                        &&& s@ == lines_for(old(self)@, key@)[0]
                        &&& final(self)@ == without_key(old(self)@, key@)
                    },
                    None => !has_key(old(self)@, key@) && final(self)@ == old(self)@,
                },
                Err(e) => final(self)@ == old(self)@ && has_key(old(self)@, key@) && lines_for(
                    old(self)@,
                    key@,
                ).len() != 1 && (e matches ParseError::WrongLineCount { key: k } && k@ == key@),
            },
    {
        match self.index_of(key) {
            None => Ok(None),
            Some(i) => {
                if self.fields[i].lines.len() != 1 {
                    return Err(ParseError::WrongLineCount { key: key.to_owned() });
                }
                let mut field = self.fields.remove(i);
                proof {
                    assert(self.fields.deep_view() =~= old(self).fields.deep_view().remove(
                        i as int,
                    ));
                }
                match field.lines.pop() {
                    Some(s) => Ok(Some(s)),
                    None => Err(ParseError::WrongLineCount { key: key.to_owned() }),  // unreachable: one line is there
                }
            },
        }
    }

    /// Reads a field's single line without removing it: nothing when the
    /// field is absent or holds several lines.
    pub fn get_one_line(&self, key: &str) -> (r: Option<String>)
        ensures
            match r {
                Some(s) => has_key(self@, key@) && lines_for(self@, key@).len() == 1 && s@
                    == lines_for(self@, key@)[0],
                None => !has_key(self@, key@) || lines_for(self@, key@).len() != 1,
            },
    {
        match self.index_of(key) {
            None => None,
            Some(i) => {
                if self.fields[i].lines.len() != 1 {
                    None
                } else {
                    Some(self.fields[i].lines[0].clone())
                }
            },
        }
    }

    /// The fields still left, in order: what a record parse did not
    /// consume.
    pub fn into_fields(self) -> (r: Vec<Field>)
        ensures
            r.deep_view() == self@,
    {
        self.fields
    }
}

/// The lines joined with a newline between each pair: the defined reading
/// of a multi-line free-text field.
pub open spec fn joined_spec(lines: Seq<Seq<char>>) -> Seq<char>
    decreases lines.len(),
{
    if lines.len() == 0 {
        Seq::empty()
    } else if lines.len() == 1 {
        lines[0]
    } else {
        lines[0] + seq!['\n'] + joined_spec(lines.drop_first())
    }
}

/// Appending one line extends the join by a newline and that line.
pub proof fn lemma_joined_snoc(lines: Seq<Seq<char>>, x: Seq<char>)
    ensures
        lines.len() == 0 ==> joined_spec(lines.push(x)) == x,
        lines.len() > 0 ==> joined_spec(lines.push(x)) == joined_spec(lines) + seq!['\n'] + x,
    decreases lines.len(),
{
    if lines.len() == 0 {
        assert(lines.push(x)[0] == x);
    } else {
        lemma_joined_snoc(lines.drop_first(), x);
        assert(lines.push(x).drop_first() =~= lines.drop_first().push(x));
        if lines.len() == 1 {
            assert(joined_spec(lines.push(x)) == lines[0] + seq!['\n'] + joined_spec(
                lines.push(x).drop_first(),
            ));
        }
    }
}

/// Joins a field's lines with a newline between each pair.
pub fn joined(lines: &Vec<String>) -> (r: String)
    ensures
        r@ == joined_spec(lines.deep_view()),
{
    let n = lines.len();
    let mut out = String::new();
    let mut i: usize = 0;
    while i < n
        invariant
            n == lines@.len(),
            0 <= i <= n,
            out@ == joined_spec(lines.deep_view().take(i as int)),
        decreases n - i,
    {
        proof {
            lemma_joined_snoc(lines.deep_view().take(i as int), lines.deep_view()[i as int]);
            assert(lines.deep_view().take(i + 1) =~= lines.deep_view().take(i as int).push(
                lines.deep_view()[i as int],
            ));
            reveal_strlit("\n");
            assert("\n"@ =~= seq!['\n']);
        }
        if i > 0 {
            out.append("\n");
        }
        out.append(lines[i].as_str());
        i = i + 1;
    }
    proof {
        assert(lines.deep_view().take(n as int) =~= lines.deep_view());
    }
    out
}

/// Whether a line is blank: empty or whitespace only. Blank lines separate
/// paragraphs.
pub open spec fn is_blank_line(l: Seq<char>) -> bool {
    skip_while_spaces(l, 0, true) == l.len()
}

/// Whether a line continues the field above it: it starts with folding
/// whitespace.
pub open spec fn is_cont_line(l: Seq<char>) -> bool {
    l.len() > 0 && is_space(l[0])
}

/// Whether a line is blank, decided character by character.
fn line_is_blank(l: &str) -> (r: bool)
    ensures
        r == is_blank_line(l@),
{
    let n = l.unicode_len();
    skip_chars(l, 0, true) == n
}

/// Whether a line starts with folding whitespace.
fn line_is_cont(l: &str) -> (r: bool)
    ensures
        r == is_cont_line(l@),
{
    let n = l.unicode_len();
    if n == 0 {
        return false;
    }
    let c = l.get_char(0);
    c == ' ' || c == '\t'
}

/// The input split at newlines, from position `i` on: each piece is free
/// of newlines, and the pieces joined with newlines are the input again.
pub open spec fn split_lines_at(s: Seq<char>, i: int) -> Seq<Seq<char>>
    decreases s.len() - i,
    when 0 <= i <= s.len()
    via split_lines_at_dec
{
    let e = find_char(s, i, '\n');
    if e >= s.len() {
        seq![s.subrange(i, s.len() as int)]
    } else {
        seq![s.subrange(i, e)] + split_lines_at(s, e + 1)
    }
}

#[via_fn]
proof fn split_lines_at_dec(s: Seq<char>, i: int) {
    lemma_find_char(s, i, '\n');
}

/// Splits off each line of `s` from position `i` on, appending to `out`.
fn split_lines_into(s: &str, i: usize, out: &mut Vec<String>)
    requires
        i <= s@.len(),
    ensures
        final(out).deep_view() == old(out).deep_view() + split_lines_at(s@, i as int),
    decreases s@.len() - i,
{
    proof {
        lemma_find_char(s@, i as int, '\n');
    }
    let n = s.unicode_len();
    let e = find_char_from(s, i, '\n');
    let piece = s.substring_char(i, e).to_owned();
    out.push(piece);
    if e < n {
        split_lines_into(s, e + 1, out);
        proof {
            assert(out.deep_view() =~= old(out).deep_view() + split_lines_at(s@, i as int));
        }
    } else {
        proof {
            assert(out.deep_view() =~= old(out).deep_view() + split_lines_at(s@, i as int));
        }
    }
}

/// Splits the record text into its lines.
pub fn split_lines(s: &str) -> (r: Vec<String>)
    ensures
        r.deep_view() == split_lines_at(s@, 0),
{
    let mut out: Vec<String> = Vec::new();
    split_lines_into(s, 0, &mut out);
    proof {
        assert(out.deep_view() =~= Seq::<Seq<char>>::empty() + split_lines_at(s@, 0));
    }
    out
}

/// The position of the first blank line at or after `i`: the end of the
/// paragraph that starts at `i`.
pub open spec fn para_end(lines: Seq<Seq<char>>, i: int) -> int
    decreases lines.len() - i,
    when 0 <= i <= lines.len()
{
    if i >= lines.len() {
        i
    } else if is_blank_line(lines[i]) {
        i
    } else {
        para_end(lines, i + 1)
    }
}

/// The bounds of `para_end`: between `i` and the length, nothing blank
/// before it, and blank there when within range.
pub proof fn lemma_para_end(lines: Seq<Seq<char>>, i: int)
    requires
        0 <= i <= lines.len(),
    ensures
        i <= para_end(lines, i) <= lines.len(),
        forall|k: int| i <= k < para_end(lines, i) ==> !is_blank_line(#[trigger] lines[k]),
        para_end(lines, i) < lines.len() ==> is_blank_line(lines[para_end(lines, i)]),
    decreases lines.len() - i,
{
    if i < lines.len() && !is_blank_line(lines[i]) {
        lemma_para_end(lines, i + 1);
    }
}

/// Finds the end of the paragraph that starts at `i`.
fn para_end_exec(lines: &Vec<String>, i: usize) -> (r: usize)
    requires
        i <= lines@.len(),
    ensures
        r == para_end(lines.deep_view(), i as int),
        i <= r <= lines@.len(),
    decreases lines@.len() - i,
{
    proof {
        lemma_para_end(lines.deep_view(), i as int);
    }
    let n = lines.len();
    if i >= n {
        return i;
    }
    if line_is_blank(lines[i].as_str()) {
        i
    } else {
        para_end_exec(lines, i + 1)
    }
}

/// The position of the first non-continuation line between `j` and `end`.
pub open spec fn cont_end(lines: Seq<Seq<char>>, j: int, end: int) -> int
    decreases end - j,
    when 0 <= j <= end <= lines.len()
{
    if j >= end {
        j
    } else if is_cont_line(lines[j]) {
        cont_end(lines, j + 1, end)
    } else {
        j
    }
}

/// The bounds of `cont_end`: between `j` and `end`.
pub proof fn lemma_cont_end(lines: Seq<Seq<char>>, j: int, end: int)
    requires
        0 <= j <= end <= lines.len(),
    ensures
        j <= cont_end(lines, j, end) <= end,
    decreases end - j,
{
    if j < end && is_cont_line(lines[j]) {
        lemma_cont_end(lines, j + 1, end);
    }
}

/// The trimmed values of the continuation lines between `j` and `end`.
pub open spec fn cont_values(lines: Seq<Seq<char>>, j: int, end: int) -> Seq<Seq<char>>
    decreases end - j,
    when 0 <= j <= end <= lines.len()
{
    if j >= end {
        Seq::empty()
    } else {
        seq![trimmed(lines[j], 0, lines[j].len() as int)] + cont_values(lines, j + 1, end)
    }
}

/// The field that starts at line `i`, with its folded continuation lines:
/// nothing when the line does not carry a nonempty name, a colon and a
/// value.
pub open spec fn parse_field_at(lines: Seq<Seq<char>>, i: int, end: int) -> Option<FieldView>
    recommends
        0 <= i < end <= lines.len(),
{
    let l = lines[i];
    let colon = find_char(l, 0, ':');
    if is_cont_line(l) || colon <= 0 || colon >= l.len() {
        None
    } else {
        Some(
            FieldView {
                name: l.subrange(0, colon),
                lines: seq![trimmed(l, colon + 1, l.len() as int)] + cont_values(
                    lines,
                    i + 1,
                    cont_end(lines, i + 1, end),
                ),
            },
        )
    }
}

/// The fields of the paragraph lines `i` to `end`: every line there either
/// opens a field or continues the one above it.
pub open spec fn parse_fields(lines: Seq<Seq<char>>, i: int, end: int) -> Option<Seq<FieldView>>
    decreases end - i,
    when 0 <= i <= end <= lines.len()
    via parse_fields_dec
{
    if i >= end {
        Some(Seq::empty())
    } else {
        match parse_field_at(lines, i, end) {
            None => None,
            Some(f) => {
                match parse_fields(lines, cont_end(lines, i + 1, end), end) {
                    None => None,
                    Some(rest) => Some(seq![f] + rest),
                }
            },
        }
    }
}

#[via_fn]
proof fn parse_fields_dec(lines: Seq<Seq<char>>, i: int, end: int) {
    if 0 <= i && i < end && end <= lines.len() {
        lemma_cont_end(lines, i + 1, end);
    }
}

/// Collects the continuation lines from `j` on, appending their trimmed
/// values; hands back the position of the first line that is no
/// continuation.
fn fold_cont(lines: &Vec<String>, j: usize, end: usize, vals: &mut Vec<String>) -> (r: usize)
    requires
        j <= end <= lines@.len(),
    ensures
        r == cont_end(lines.deep_view(), j as int, end as int),
        j <= r <= end,
        final(vals).deep_view() == old(vals).deep_view() + cont_values(
            lines.deep_view(),
            j as int,
            r as int,
        ),
    decreases end - j,
{
    proof {
        lemma_cont_end(lines.deep_view(), j as int, end as int);
    }
    if j < end && line_is_cont(lines[j].as_str()) {
        let n = lines[j].unicode_len();
        let v = trim_substring(lines[j].as_str(), 0, n);
        vals.push(v);
        let r = fold_cont(lines, j + 1, end, vals);
        proof {
            assert(vals.deep_view() =~= old(vals).deep_view() + cont_values(
                lines.deep_view(),
                j as int,
                r as int,
            ));
        }
        r
    } else {
        proof {
            assert(vals.deep_view() =~= old(vals).deep_view() + cont_values(
                lines.deep_view(),
                j as int,
                j as int,
            ));
        }
        j
    }
}

/// Parses the fields of one paragraph, lines `i` to `end`.
fn parse_fields_rec(lines: &Vec<String>, i: usize, end: usize) -> (r: Result<
    Vec<Field>,
    ParseError,
>)
    requires
        i <= end <= lines@.len(),
    ensures
        match r {
            Ok(fs) => parse_fields(lines.deep_view(), i as int, end as int) == Some(
                fs.deep_view(),
            ),
            Err(e) => parse_fields(lines.deep_view(), i as int, end as int) is None && e
                matches ParseError::BadFieldLine { .. },
        },
    decreases end - i,
{
    if i >= end {
        let fs: Vec<Field> = Vec::new();
        proof {
            assert(fs.deep_view() =~= Seq::<FieldView>::empty());
        }
        return Ok(fs);
    }
    let l = &lines[i];
    let n = l.unicode_len();
    let colon = find_char_from(l.as_str(), 0, ':');
    if line_is_cont(l.as_str()) || colon == 0 || colon >= n {
        return Err(ParseError::BadFieldLine { line: l.clone() });
    }
    let name = l.as_str().substring_char(0, colon).to_owned();
    let first = trim_substring(l.as_str(), colon + 1, n);
    let mut vals: Vec<String> = Vec::new();
    vals.push(first);
    let next = fold_cont(lines, i + 1, end, &mut vals);
    proof {
        assert(vals.deep_view() =~= seq![
            trimmed(lines.deep_view()[i as int], colon + 1, lines.deep_view()[i as int].len() as int),
        ] + cont_values(lines.deep_view(), i + 1, next as int));
    }
    let field = Field { name, lines: vals };
    match parse_fields_rec(lines, next, end) {
        Err(e) => Err(e),
        Ok(rest0) => {
            let ghost before = rest0.deep_view();
            let mut rest = rest0;
            rest.insert(0, field);
            proof {
                assert(rest.deep_view() =~= seq![field@] + before);
            }
            Ok(rest)
        },
    }
}

/// The image of a paragraph sequence.
pub open spec fn paras_view(ps: Seq<Paragraph>) -> Seq<Seq<FieldView>> {
    ps.map(|k: int, p: Paragraph| p@)
}

/// The paragraphs of the record text, from line `i` on: blank lines
/// separate them, and every non-blank run must parse as fields.
pub open spec fn scan_paras(lines: Seq<Seq<char>>, i: int) -> Option<Seq<Seq<FieldView>>>
    decreases lines.len() - i,
    when 0 <= i <= lines.len()
    via scan_paras_dec
{
    if i >= lines.len() {
        Some(Seq::empty())
    } else if is_blank_line(lines[i]) {
        scan_paras(lines, i + 1)
    } else {
        let end = para_end(lines, i);
        match parse_fields(lines, i, end) {
            None => None,
            Some(fs) => match scan_paras(lines, end) {
                None => None,
                Some(ps) => Some(seq![fs] + ps),
            },
        }
    }
}

#[via_fn]
proof fn scan_paras_dec(lines: Seq<Seq<char>>, i: int) {
    if 0 <= i && i < lines.len() && !is_blank_line(lines[i]) {
        lemma_para_end(lines, i);
    }
}

/// Scans the paragraphs from line `i` on.
fn scan_paras_rec(lines: &Vec<String>, i: usize) -> (r: Result<Vec<Paragraph>, ParseError>)
    requires
        i <= lines@.len(),
    ensures
        match r {
            Ok(ps) => scan_paras(lines.deep_view(), i as int) == Some(paras_view(ps@)),
            Err(e) => scan_paras(lines.deep_view(), i as int) is None && e
                matches ParseError::BadFieldLine { .. },
        },
    decreases lines@.len() - i,
{
    let n = lines.len();
    if i >= n {
        let ps: Vec<Paragraph> = Vec::new();
        proof {
            assert(paras_view(ps@) =~= Seq::<Seq<FieldView>>::empty());
        }
        return Ok(ps);
    }
    if line_is_blank(lines[i].as_str()) {
        return scan_paras_rec(lines, i + 1);
    }
    let end = para_end_exec(lines, i);
    proof {
        lemma_para_end(lines.deep_view(), i + 1);
    }
    match parse_fields_rec(lines, i, end) {
        Err(e) => Err(e),
        Ok(fields) => {
            match scan_paras_rec(lines, end) {
                Err(e) => Err(e),
                Ok(mut rest) => {
                    let para = Paragraph { fields };
                    rest.insert(0, para);
                    proof {
                        assert(paras_view(rest@) =~= seq![rest@[0]@] + paras_view(
                            rest@.drop_first(),
                        ));
                    }
                    Ok(rest)
                },
            }
        },
    }
}

/// Scans a record text into its paragraphs: the lazy sequence of the
/// format, materialized in order. The scan is non-destructive; scanning
/// the same text again yields the same paragraphs. A repeated field name
/// is kept every time it occurs, in order — the contract pins every
/// occurrence — and the paragraph's lookups then read the first.
pub fn scan(s: &str) -> (r: Result<Vec<Paragraph>, ParseError>)
    ensures
        match r {
            Ok(ps) => scan_paras(split_lines_at(s@, 0), 0) == Some(paras_view(ps@)),
            Err(e) => scan_paras(split_lines_at(s@, 0), 0) is None && e
                matches ParseError::BadFieldLine { .. },
        },
{
    let lines = split_lines(s);
    scan_paras_rec(&lines, 0)
}

} // verus!
