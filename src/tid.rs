//! Title identifiers: the file naming convention and the classification of
//! a title by the last three characters of its identifier.

use vstd::prelude::*;
use vstd::string::StrSliceExecFns;

verus! {

/// Number of characters of a title identifier.
pub const TID_LEN: usize = 16;

/// Number of leading characters kept when forming the base title's identifier.
pub const BASE_PREFIX_LEN: usize = 12;

/// What a title is, as told by the end of its identifier.
#[derive(Clone, Copy, Debug, PartialEq, Eq, Structural)]
pub enum Classification {
    Base,
    Update,
    Dlc,
}

/// The suffix that every statistics file name carries after the identifier.
pub open spec fn file_suffix() -> Seq<char> {
    seq!['_', 'd', 'o', 'w', 'n', 'l', 'o', 'a', 'd', 's', '.', 'j', 's', 'o', 'n']
}

pub open spec fn base_marker() -> Seq<char> {
    seq!['0', '0', '0']
}

pub open spec fn update_marker() -> Seq<char> {
    seq!['8', '0', '0']
}

pub open spec fn is_hex_digit(c: char) -> bool {
    ('0' <= c && c <= '9') || ('a' <= c && c <= 'f') || ('A' <= c && c <= 'F')
}

/// A well-formed title identifier: sixteen hexadecimal digits.
pub open spec fn is_valid_tid(s: Seq<char>) -> bool {
    s.len() == TID_LEN && forall|i: int| 0 <= i < s.len() ==> is_hex_digit(#[trigger] s[i])
}

pub open spec fn ends_with(s: Seq<char>, suffix: Seq<char>) -> bool {
    s.len() >= suffix.len() && s.subrange(s.len() - suffix.len(), s.len() as int) == suffix
}

/// The identifier encoded in a file name, if the name follows the convention.
pub open spec fn tid_of_file_name(name: Seq<char>) -> Option<Seq<char>> {
    let n = TID_LEN + file_suffix().len();
    if name.len() == n && name.subrange(TID_LEN as int, n as int) == file_suffix()
        && is_valid_tid(name.subrange(0, TID_LEN as int)) {
        Some(name.subrange(0, TID_LEN as int))
    } else {
        None
    }
}

pub open spec fn classification_of(tid: Seq<char>) -> Classification {
    if ends_with(tid, base_marker()) {
        Classification::Base
    } else if ends_with(tid, update_marker()) {
        Classification::Update
    } else {
        Classification::Dlc
    }
}

/// The identifier of the base title: the first twelve characters followed by
/// `000`; none for a base title itself.
pub open spec fn base_tid_of(tid: Seq<char>) -> Option<Seq<char>> {
    if classification_of(tid) == Classification::Base {
        None
    } else {
        Some(tid.subrange(0, BASE_PREFIX_LEN as int) + base_marker())
    }
}

fn is_hex_char(c: char) -> (r: bool)
    ensures
        r == is_hex_digit(c),
{
    ('0' <= c && c <= '9') || ('a' <= c && c <= 'f') || ('A' <= c && c <= 'F')
}

/// Whether the last three characters of `s` are `a`, `b`, `c`.
fn ends_with3(s: &str, a: char, b: char, c: char) -> (r: bool)
    ensures
        r == ends_with(s@, seq![a, b, c]),
{
    let n = s.unicode_len();
    if n < 3 {
        return false;
    }
    let r = s.get_char(n - 3) == a && s.get_char(n - 2) == b && s.get_char(n - 1) == c;
    assert(r == (s@.subrange(n - 3, n as int) =~= seq![a, b, c]));
    r
}

/// Classifies a title by the last three characters of its identifier.
pub fn classify(tid: &str) -> (r: Classification)
    ensures
        r == classification_of(tid@),
{
    if ends_with3(tid, '0', '0', '0') {
        Classification::Base
    } else if ends_with3(tid, '8', '0', '0') {
        Classification::Update
    } else {
        Classification::Dlc
    }
}

/// The identifier of the base title that `tid` belongs to, or `None` when
/// `tid` is itself a base title.
pub fn base_tid(tid: &str) -> (r: Option<String>)
    requires
        tid@.len() >= BASE_PREFIX_LEN,
    ensures
        r.is_some() == base_tid_of(tid@).is_some(),
        r matches Some(b) ==> b@ == base_tid_of(tid@).unwrap(),
{
    if classify(tid) == Classification::Base {
        None
    } else {
        let head = tid.substring_char(0, BASE_PREFIX_LEN);
        let zeros = "000";
        proof {
            reveal_strlit("000");
        }
        let b = String::from_str(head).concat(zeros);
        assert(zeros@ =~= base_marker());
        Some(b)
    }
}

/// The identifier that a statistics file name carries: the name must be
/// sixteen hexadecimal digits followed by `_downloads.json`.
pub fn tid_from_file_name(name: &str) -> (r: Option<String>)
    ensures
        r.is_some() == tid_of_file_name(name@).is_some(),
        r matches Some(t) ==> t@ == tid_of_file_name(name@).unwrap(),
{
    let suffix = "_downloads.json";
    proof {
        reveal_strlit("_downloads.json");
    }
    assert(suffix@ =~= file_suffix());
    let n = name.unicode_len();
    if n != TID_LEN + 15 {
        return None;
    }
    let mut i: usize = 0;
    while i < 15
        invariant
            n == name@.len(),
            n == TID_LEN + 15,
            suffix@ == file_suffix(),
            0 <= i <= 15,
            forall|j: int| 0 <= j < i ==> name@[TID_LEN + j] == file_suffix()[j],
        decreases 15 - i,
    {
        if name.get_char(TID_LEN + i) != suffix.get_char(i) {
            assert(name@.subrange(TID_LEN as int, n as int)[i as int] != file_suffix()[i as int]);
            return None;
        }
        i = i + 1;
    }
    assert(name@.subrange(TID_LEN as int, n as int) =~= file_suffix());
    let mut k: usize = 0;
    while k < TID_LEN
        invariant
            n == name@.len(),
            n == TID_LEN + 15,
            0 <= k <= TID_LEN,
            forall|j: int| 0 <= j < k ==> is_hex_digit(#[trigger] name@[j]),
        decreases TID_LEN - k,
    {
        if !is_hex_char(name.get_char(k)) {
            assert(name@.subrange(0, TID_LEN as int)[k as int] == name@[k as int]);
            return None;
        }
        k = k + 1;
    }
    let head = name.substring_char(0, TID_LEN);
    let t = String::from_str(head);
    proof {
        let s = name@.subrange(0, TID_LEN as int);
        assert forall|j: int| 0 <= j < s.len() implies is_hex_digit(#[trigger] s[j]) by {
            assert(s[j] == name@[j]);
        }
    }
    Some(t)
}

} // verus!
