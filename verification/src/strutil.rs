//! String utilities: ASCII case-insensitive comparison and splitting a
//! comma-separated list, with exact specifications.

use vstd::prelude::*;

verus! {

/// Code point of a character after ASCII lower-casing: `'A'..='Z'` shift
/// by 32, everything else is unchanged.
pub open spec fn lower_code(c: char) -> int {
    if 65 <= c as int && c as int <= 90 {
        c as int + 32
    } else {
        c as int
    }
}

/// Two character sequences match ASCII case-insensitively.
pub open spec fn seq_ci_equal(a: Seq<char>, b: Seq<char>) -> bool {
    a.len() == b.len() && forall|i: int| 0 <= i < a.len() ==> lower_code(a[i]) == lower_code(b[i])
}

/// ASCII case-insensitive equality of two characters.
fn char_ci_eq(a: char, b: char) -> (r: bool)
    ensures
        r == (lower_code(a) == lower_code(b)),
{
    let au: u32 = a as u32;
    let bu: u32 = b as u32;
    let al: u32 = if 65 <= au && au <= 90 { au + 32 } else { au };
    let bl: u32 = if 65 <= bu && bu <= 90 { bu + 32 } else { bu };
    al == bl
}

/// ASCII case-insensitive equality of two strings.
pub fn str_ci_eq(a: &str, b: &str) -> (r: bool)
    ensures
        r == seq_ci_equal(a@, b@),
{
    let a_len = a.unicode_len();
    let b_len = b.unicode_len();
    if a_len != b_len {
        return false;
    }
    let mut i: usize = 0;
    while i < a_len
        invariant
            a_len == a@.len(),
            b_len == b@.len(),
            a_len == b_len,
            0 <= i <= a_len,
            forall|j: int| 0 <= j < i ==> lower_code(a@[j]) == lower_code(b@[j]),
        decreases a_len - i,
    {
        if !char_ci_eq(a.get_char(i), b.get_char(i)) {
            return false;
        }
        i += 1;
    }
    true
}

/// Exact (case-sensitive) equality of two strings.
pub fn str_eq(a: &str, b: &str) -> (r: bool)
    ensures
        r == (a@ == b@),
{
    let a_len = a.unicode_len();
    let b_len = b.unicode_len();
    if a_len != b_len {
        return false;
    }
    let mut i: usize = 0;
    while i < a_len
        invariant
            a_len == a@.len(),
            b_len == b@.len(),
            a_len == b_len,
            0 <= i <= a_len,
            forall|j: int| 0 <= j < i ==> a@[j] == b@[j],
        decreases a_len - i,
    {
        if a.get_char(i) != b.get_char(i) {
            return false;
        }
        i += 1;
    }
    proof {
        assert(a@ =~= b@);
    }
    true
}

/// Position of the first comma in `s`, or `s.len()` if there is none.
pub open spec fn first_comma(s: Seq<char>) -> int
    decreases s.len(),
{
    if s.len() == 0 {
        0
    } else if s[0] == ',' {
        0
    } else {
        1 + first_comma(s.drop_first())
    }
}

/// `first_comma` is determined by any witness position: a comma at `k`
/// (or the end of the string at `k`) with no comma before it.
pub proof fn lemma_first_comma_at(s: Seq<char>, k: int)
    requires
        0 <= k <= s.len(),
        forall|j: int| 0 <= j < k ==> s[j] != ',',
        k == s.len() || s[k] == ',',
    ensures
        first_comma(s) == k,
    decreases k,
{
    if k > 0 {
        assert(s[0] != ',');
        assert(forall|j: int| 0 <= j < k - 1 ==> s.drop_first()[j] == s[j + 1]);
        lemma_first_comma_at(s.drop_first(), k - 1);
    }
}

/// The comma-separated fields of `s`, in order. Splitting keeps empty
/// fields: a string without commas is one field, and each comma ends a
/// field, so there is always exactly one field more than commas.
pub open spec fn split_commas(s: Seq<char>) -> Seq<Seq<char>>
    decreases s.len(),
{
    let i = first_comma(s);
    if 0 <= i < s.len() {
        seq![s.subrange(0, i)] + split_commas(s.skip(i + 1))
    } else {
        seq![s]
    }
}

/// Splits `s` at every comma, keeping empty fields.
pub fn split_commas_exec(s: &str) -> (parts: Vec<String>)
    ensures
        parts@.map_values(|p: String| p@) == split_commas(s@),
{
    let len = s.unicode_len();
    let mut parts: Vec<String> = Vec::new();
    proof {
        assert(s@.skip(0) =~= s@);
        assert(parts@.map_values(|p: String| p@) + split_commas(s@) =~= split_commas(s@));
    }
    let mut start: usize = 0;
    let mut i: usize = 0;
    while i < len
        invariant
            len == s@.len(),
            0 <= start <= i <= len,
            forall|j: int| start <= j < i ==> s@[j] != ',',
            split_commas(s@) =~= parts@.map_values(|p: String| p@) + split_commas(
                s@.skip(start as int),
            ),
        decreases len - i,
    {
        let c = s.get_char(i);
        if c == ',' {
            let piece = s.substring_char(start, i).to_owned();
            proof {
                let rest = s@.skip(start as int);
                let views = parts@.map_values(|p: String| p@);
                let tail = split_commas(s@.skip(i + 1));
                assert(forall|j: int|
                    0 <= j < i - start ==> rest[j] == s@[j + start] && rest[j] != ',');
                assert(rest[i - start] == ',');
                lemma_first_comma_at(rest, i - start);
                assert(rest.subrange(0, i - start) =~= s@.subrange(start as int, i as int));
                assert(rest.skip(i - start + 1) =~= s@.skip(i + 1));
                assert(split_commas(rest) == seq![piece@] + tail);
                assert((views + seq![piece@]) + tail =~= views + (seq![piece@] + tail));
                assert(views.push(piece@) =~= views + seq![piece@]);
                assert(parts@.push(piece).map_values(|p: String| p@) =~= views.push(piece@));
                assert(split_commas(s@) == parts@.push(piece).map_values(|p: String| p@) + tail);
            }
            parts.push(piece);
            start = i + 1;
        }
        i += 1;
    }
    let piece = s.substring_char(start, len).to_owned();
    proof {
        let rest = s@.skip(start as int);
        let views = parts@.map_values(|p: String| p@);
        assert(forall|j: int| 0 <= j < rest.len() ==> rest[j] == s@[j + start] && rest[j] != ',');
        lemma_first_comma_at(rest, rest.len() as int);
        assert(rest =~= s@.subrange(start as int, len as int));
        assert(split_commas(rest) == seq![piece@]);
        assert(views.push(piece@) =~= views + seq![piece@]);
        assert(parts@.push(piece).map_values(|p: String| p@) =~= views.push(piece@));
        assert(split_commas(s@) == parts@.push(piece).map_values(|p: String| p@));
    }
    parts.push(piece);
    parts
}

} // verus!
