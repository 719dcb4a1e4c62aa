//! Identities of maintainers and uploaders.
//!
//! A maintainer field holds one or more comma-separated identities, each a
//! free-text name optionally followed by an address in angle brackets.

use vstd::prelude::*;

use crate::ParseError;
use crate::text::find_char;
use crate::text::find_char_from;
use crate::text::find_char_in;
use crate::text::find_char_within;
use crate::text::lemma_find_char;
use crate::text::lemma_find_char_in;
use crate::text::trim_substring;
use crate::text::trimmed;

verus! {

/// The mathematical image of an identity.
#[verifier::ext_equal]
pub struct IdentityView {
    pub name: Seq<char>,
    pub email: Seq<char>,
}

/// One person or team: a display name and an address. The address is
/// empty when the text carries none.
#[derive(Clone, Debug, PartialEq, Eq)]
pub struct Identity {
    pub name: String,
    pub email: String,
}

impl View for Identity {
    type V = IdentityView;

    open spec fn view(&self) -> IdentityView {
        IdentityView { name: self.name@, email: self.email@ }
    }
}

impl DeepView for Identity {
    type V = IdentityView;

    open spec fn deep_view(&self) -> IdentityView {
        self.view()
    }
}

/// The image of an identity list.
pub open spec fn idents_view(ids: Seq<Identity>) -> Seq<IdentityView> {
    ids.map(|k: int, id: Identity| id@)
}

/// One identity out of the characters `i..e`: the trimmed text before the
/// first angle bracket as the name, the trimmed text inside the brackets
/// as the address. Without brackets the whole trimmed text is the name; a
/// bracket that never closes is an error.
pub open spec fn parse_identity_in(s: Seq<char>, i: int, e: int) -> Option<IdentityView>
    recommends
        0 <= i <= e <= s.len(),
{
    let lt = find_char_in(s, i, e, '<');
    if lt >= e {
        Some(IdentityView { name: trimmed(s, i, e), email: Seq::empty() })
    } else {
        let gt = find_char_in(s, lt + 1, e, '>');
        if gt >= e {
            None
        } else {
            Some(IdentityView { name: trimmed(s, i, lt), email: trimmed(s, lt + 1, gt) })
        }
    }
}

/// The comma-separated identities from position `i` on. A piece of only
/// whitespace contributes nothing.
pub open spec fn read_idents_at(s: Seq<char>, i: int) -> Option<Seq<IdentityView>>
    decreases s.len() - i,
    when 0 <= i <= s.len()
    via read_idents_at_dec
{
    let e = find_char(s, i, ',');
    let head = if trimmed(s, i, e).len() == 0 {
        Some(Seq::<IdentityView>::empty())
    } else {
        match parse_identity_in(s, i, e) {
            None => None,
            Some(id) => Some(seq![id]),
        }
    };
    if e >= s.len() {
        head
    } else {
        match head {
            None => None,
            Some(h) => match read_idents_at(s, e + 1) {
                None => None,
                Some(t) => Some(h + t),
            },
        }
    }
}

#[via_fn]
proof fn read_idents_at_dec(s: Seq<char>, i: int) {
    lemma_find_char(s, i, ',');
}

/// Reads the identities from position `i` on, appending to `out`.
fn read_idents_into(s: &str, i: usize, out: &mut Vec<Identity>) -> (r: Result<(), ParseError>)
    requires
        i <= s@.len(),
    ensures
        match r {
            Ok(()) => read_idents_at(s@, i as int) matches Some(ids) && final(out).deep_view()
                == old(out).deep_view() + ids,
            Err(e) => read_idents_at(s@, i as int) is None && (e
                matches ParseError::BadIdentity { text } && text@ == s@),
        },
    decreases s@.len() - i,
{
    proof {
        lemma_find_char(s@, i as int, ',');
    }
    let n = s.unicode_len();
    let e = find_char_from(s, i, ',');
    let piece = trim_substring(s, i, e);
    let mut head: Option<Identity> = None;
    if piece.unicode_len() > 0 {
        proof {
            lemma_find_char_in(s@, i as int, e as int, '<');
        }
        let lt = find_char_within(s, i, e, '<');
        if lt >= e {
            head = Some(Identity { name: piece, email: String::new() });
        } else {
            proof {
                lemma_find_char_in(s@, lt + 1, e as int, '>');
            }
            let gt = find_char_within(s, lt + 1, e, '>');
            if gt >= e {
                return Err(ParseError::BadIdentity { text: s.to_owned() });
            }
            head = Some(
                Identity { name: trim_substring(s, i, lt), email: trim_substring(s, lt + 1, gt) },
            );
        }
    }
    match head {
        Some(id) => out.push(id),
        None => (),
    }
    if e < n {
        match read_idents_into(s, e + 1, out) {
            Ok(()) => {},
            Err(err) => {
                return Err(err);
            },
        }
    }
    proof {
        assert(out.deep_view() =~= old(out).deep_view() + read_idents_at(s@, i as int).unwrap());
    }
    Ok(())
}

/// Reads a comma-separated identity list, as a maintainer or uploaders
/// field holds it.
pub fn read(s: &str) -> (r: Result<Vec<Identity>, ParseError>)
    ensures
        match r {
            Ok(ids) => read_idents_at(s@, 0) == Some(idents_view(ids@)),
            Err(e) => read_idents_at(s@, 0) is None && (e matches ParseError::BadIdentity {
                text,
            } && text@ == s@),
        },
{
    let mut out: Vec<Identity> = Vec::new();
    match read_idents_into(s, 0, &mut out) {
        Ok(()) => {
            proof {
                assert(idents_view(out@) =~= Seq::<IdentityView>::empty() + idents_view(out@));
                assert(out.deep_view() =~= idents_view(out@));
            }
            Ok(out)
        },
        Err(e) => Err(e),
    }
}

} // verus!
