//! The two places the editor leans on Unicode data tables: splitting a string
//! into grapheme clusters and measuring a cluster's display width. Both calls
//! are functions of the characters alone, so each result is given a name that
//! the rest of the crate's contracts speak of.
use vstd::prelude::*;

verus! {

/// The grapheme clusters of a string, in order.
pub uninterp spec fn graphemes_of(s: Seq<char>) -> Seq<Seq<char>>;

/// The displayed column count of a string.
pub uninterp spec fn str_width(s: Seq<char>) -> usize;

/// The concatenation of a sequence of character sequences, in order.
pub open spec fn concat_all(gs: Seq<Seq<char>>) -> Seq<char>
    decreases gs.len(),
{
    if gs.len() == 0 {
        Seq::empty()
    } else {
        concat_all(gs.drop_last()) + gs.last()
    }
}

/// Relies on unicode_segmentation's `UnicodeSegmentation::graphemes` (legacy
/// clusters): the clusters are nonempty substrings of the input, cut at
/// cluster boundaries, whose concatenation is the input again; the cut
/// depends on the characters alone.
#[verifier::external_body]
pub fn grapheme_clusters(s: &str) -> (r: Vec<String>)
    ensures
        r@.map_values(|g: String| g@) == graphemes_of(s@),
        concat_all(r@.map_values(|g: String| g@)) == s@,
        forall|i: int| 0 <= i < r@.len() ==> r@[i]@.len() > 0,
{
    unicode_segmentation::UnicodeSegmentation::graphemes(s, false)
        .map(|g| g.to_string())
        .collect()
}

/// Relies on unicode_width's `UnicodeWidthStr::width`: the displayed column
/// count of a string, a function of its characters alone.
#[verifier::external_body]
pub fn str_display_width(s: &str) -> (r: usize)
    ensures
        r == str_width(s@),
{
    unicode_width::UnicodeWidthStr::width(s)
}

/// Relies on std's `From<char> for String`: the returned string holds the
/// one character given.
#[verifier::external_body]
pub fn char_string(c: char) -> (s: String)
    ensures
        s@ == seq![c],
{
    String::from(c)
}

/// A concatenation of nonempty pieces has at least one character per piece.
pub proof fn lemma_concat_len_ge(gs: Seq<Seq<char>>)
    requires
        forall|i: int| 0 <= i < gs.len() ==> gs[i].len() > 0,
    ensures
        concat_all(gs).len() >= gs.len(),
    decreases gs.len(),
{
    if gs.len() > 0 {
        lemma_concat_len_ge(gs.drop_last());
    }
}

/// A one-character string splits into exactly one piece: itself.
pub proof fn lemma_concat_singleton(gs: Seq<Seq<char>>, s: Seq<char>)
    requires
        concat_all(gs) == s,
        s.len() == 1,
        forall|i: int| 0 <= i < gs.len() ==> gs[i].len() > 0,
    ensures
        gs =~= seq![s],
{
    lemma_concat_len_ge(gs);
    if gs.len() == 0 {
        assert(concat_all(gs).len() == 0);
    } else {
        assert(gs.len() == 1);
        assert(concat_all(gs) == concat_all(gs.drop_last()) + gs.last());
        assert(concat_all(gs.drop_last()).len() == 0);
        assert(gs.last() =~= s);
        assert(gs =~= seq![s]);
    }
}

/// If a character occurs nowhere in the concatenation, it occurs in no piece.
pub proof fn lemma_concat_char_free(gs: Seq<Seq<char>>, c: char)
    requires
        forall|k: int| 0 <= k < concat_all(gs).len() ==> concat_all(gs)[k] != c,
    ensures
        forall|i: int, j: int|
            0 <= i < gs.len() && 0 <= j < gs[i].len() ==> gs[i][j] != c,
    decreases gs.len(),
{
    if gs.len() > 0 {
        let prefix = concat_all(gs.drop_last());
        assert(concat_all(gs) == prefix + gs.last());
        assert forall|k: int| 0 <= k < prefix.len() implies prefix[k] != c by {
            assert(concat_all(gs)[k] == prefix[k]);
        }
        lemma_concat_char_free(gs.drop_last(), c);
        assert forall|i: int, j: int|
            0 <= i < gs.len() && 0 <= j < gs[i].len() implies gs[i][j] != c by {
            if i < gs.len() - 1 {
                assert(gs.drop_last()[i] == gs[i]);
            } else {
                assert(gs[i] == gs.last());
                assert(concat_all(gs)[prefix.len() + j] == gs.last()[j]);
            }
        }
    }
}

} // verus!
