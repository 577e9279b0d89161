//! Card geometry shared by the layout and the scroll controller.

use vstd::prelude::*;

verus! {

pub const CARD_HEIGHT_WITH_STATS: u16 = 10;

pub const CARD_HEIGHT_NO_STATS: u16 = 9;

/// The height of a habit card, one line taller with the statistics row.
pub fn card_height(show_stats: bool) -> (r: u16)
    ensures
        r == if show_stats {
            CARD_HEIGHT_WITH_STATS
        } else {
            CARD_HEIGHT_NO_STATS
        },
{
    if show_stats {
        CARD_HEIGHT_WITH_STATS
    } else {
        CARD_HEIGHT_NO_STATS
    }
}

/// A name cut to `max_width` characters: unchanged if it fits, else cut
/// and ended with three dots when there is room for them.
pub open spec fn truncated(name: Seq<char>, max_width: int) -> Seq<char> {
    if name.len() <= max_width {
        name
    } else if max_width <= 3 {
        name.subrange(0, max_width)
    } else {
        name.subrange(0, max_width - 3) + seq!['.', '.', '.']
    }
}

/// Fits a name into `max_width` characters, marking a cut with "...".
pub fn truncate_name(name: &str, max_width: usize) -> (r: String)
    ensures
        r@ == truncated(name@, max_width as int),
{
    let len = name.unicode_len();
    if len <= max_width {
        String::from_str(name)
    } else if max_width <= 3 {
        String::from_str(name.substring_char(0, max_width))
    } else {
        let mut r = String::from_str(name.substring_char(0, max_width - 3));
        let dots = "...";
        proof {
            reveal_strlit("...");
        }
        r.append(dots);
        assert(dots@ =~= seq!['.', '.', '.']);
        r
    }
}

} // verus!
