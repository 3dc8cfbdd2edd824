//! Fixed-width table cells.
//!
//! A cell is measured in characters: a cell of `width` holds `width` of
//! them, whatever the text.
use ellipse::Ellipse;
use vstd::prelude::*;
use vstd::string::*;

verus! {

/// `count` copies of `c`.
pub open spec fn repeated(c: char, count: nat) -> Seq<char> {
    Seq::new(count, |i: int| c)
}

/// `text` cut to its first `len` extended grapheme clusters, with three dots
/// behind the cut, as `ellipse` computes it from the Unicode tables.
pub uninterp spec fn grapheme_truncation(text: Seq<char>, len: nat) -> Seq<char>;

/// Calls `ellipse::Ellipse::truncate_ellipse` on a string slice.
///
/// Trusted: the result is the grapheme truncation that `ellipse` defines.
/// It is the text itself, or nothing where `len` is zero, or a beginning of
/// the text followed by `...`: the clusters that `ellipse` keeps are
/// consecutive slices of the text, taken from its start.
#[verifier::external_body]
fn truncate_ellipse(text: &str, len: usize) -> (out: String)
    ensures
        out@ == grapheme_truncation(text@, len as nat),
        out@ == text@ || (len == 0 && out@.len() == 0) || exists|kept: int|
            0 <= kept <= text@.len() && out@ == text@.take(kept) + "..."@,
{
    text.truncate_ellipse(len).into_owned()
}

/// The cell of `width` for `text`.
///
/// A text of at most `width` characters is padded on the right with spaces.
/// A longer one is cut to its first `width - 3` characters, with three dots
/// behind the cut; a cell too narrow for three dots holds dots only.
pub open spec fn column_string(text: Seq<char>, width: nat) -> Seq<char> {
    if text.len() <= width {
        text + repeated(' ', (width - text.len()) as nat)
    } else if width <= 3 {
        repeated('.', width)
    } else {
        text.take(width - 3) + "..."@
    }
}

/// Formats `text` as a table cell of `width` characters.
///
/// A text that is too long is cut by `ellipse`, at a boundary between
/// grapheme clusters. Where clusters of more than one character make that
/// cut too wide for the cell, the text is cut between characters instead.
pub fn get_column_string(text: &str, width: usize) -> (column: String)
    ensures
        column@ == column_string(text@, width as nat),
        column@.len() == width,
{
    proof {
        lemma_cell_has_width(text@, width as nat);
    }
    let text_len = text.unicode_len();
    if text_len <= width {
        let pads = width - text_len;
        let mut padded = text.to_owned();
        let mut i: usize = 0;
        while i < pads
            invariant
                i <= pads,
                padded@ == text@ + repeated(' ', i as nat),
            decreases pads - i,
        {
            padded.append(" ");
            i += 1;
            proof {
                reveal_strlit(" ");
                assert(padded@ =~= text@ + repeated(' ', i as nat));
            }
        }
        return padded;
    }
    proof {
        reveal_strlit("");
        reveal_strlit(".");
        reveal_strlit("..");
        reveal_strlit("...");
    }
    if width == 0 {
        let dots = "".to_owned();
        assert(dots@ =~= repeated('.', 0));
        dots
    } else if width == 1 {
        let dots = ".".to_owned();
        assert(dots@ =~= repeated('.', 1));
        dots
    } else if width == 2 {
        let dots = "..".to_owned();
        assert(dots@ =~= repeated('.', 2));
        dots
    } else if width == 3 {
        let dots = "...".to_owned();
        assert(dots@ =~= repeated('.', 3));
        dots
    } else {
        let cut = truncate_ellipse(text, width - 3);
        if cut.as_str().unicode_len() == width {
            proof {
                let kept = choose|kept: int|
                    0 <= kept <= text@.len() && cut@ == text@.take(kept) + "..."@;
                assert(text@.take(kept).len() == kept);
                assert(kept == width - 3);
            }
            cut
        } else {
            let mut by_characters = text.substring_char(0, width - 3).to_owned();
            by_characters.append("...");
            by_characters
        }
    }
}

/// Every cell holds exactly `width` characters, whatever the text.
pub proof fn lemma_cell_has_width(text: Seq<char>, width: nat)
    ensures
        column_string(text, width).len() == width,
{
    reveal_strlit("...");
}

/// A cell of at most three columns that is too narrow for its text holds
/// dots only, whatever the text; a cell of no width is always empty.
pub proof fn lemma_narrow_cell_is_dots(text: Seq<char>, width: nat)
    requires
        width <= 3,
        width == 0 || text.len() > width,
    ensures
        column_string(text, width) == repeated('.', width),
        width == 0 ==> column_string(text, width) == ""@,
        width == 1 ==> column_string(text, width) == "."@,
        width == 2 ==> column_string(text, width) == ".."@,
        width == 3 ==> column_string(text, width) == "..."@,
{
    reveal_strlit("");
    reveal_strlit(".");
    reveal_strlit("..");
    reveal_strlit("...");
    assert(column_string(text, width) =~= repeated('.', width));
    assert(""@ =~= repeated('.', 0));
    assert("."@ =~= repeated('.', 1));
    assert(".."@ =~= repeated('.', 2));
    assert("..."@ =~= repeated('.', 3));
}

/// A text of at most `width` characters comes back unchanged, followed by
/// as many spaces as it falls short of the width.
pub proof fn lemma_fitting_text_is_padded(text: Seq<char>, width: nat)
    requires
        text.len() <= width,
    ensures
        column_string(text, width) == text + repeated(' ', (width - text.len()) as nat),
        column_string(text, width).take(text.len() as int) == text,
        forall|i: int| text.len() <= i < width ==> column_string(text, width)[i] == ' ',
{
    let pad = repeated(' ', (width - text.len()) as nat);
    assert((text + pad).take(text.len() as int) =~= text);
}

/// A text of more than `width` characters, in a cell wide enough for three
/// dots, is cut to its first `width - 3` characters, and the dots fill the
/// cell.
pub proof fn lemma_long_text_is_cut(text: Seq<char>, width: nat)
    requires
        text.len() > width > 3,
    ensures
        column_string(text, width) == text.take(width - 3) + "..."@,
        column_string(text, width).take(width - 3) == text.take(width - 3),
        forall|i: int| width - 3 <= i < width ==> column_string(text, width)[i] == '.',
{
    reveal_strlit("...");
    assert((text.take(width - 3) + "..."@).take(width - 3) =~= text.take(width - 3));
}

} // verus!
