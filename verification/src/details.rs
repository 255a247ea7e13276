//! Decisions of the coin detail screen.

use vstd::prelude::*;
use vstd::string::*;

use crate::models::CoinDetails;
use crate::text::chars_of;

verus! {

broadcast use vstd::string::group_string_axioms;

/// What the detail screen shows under "Homepage:".
pub enum HomepageView {
    /// The coin's details have not arrived yet.
    Loading,
    /// A link to the coin's first homepage.
    Link(String),
    /// The details list no homepage, or the first one is empty.
    Unavailable,
}

/// The homepage entry of the detail screen for `details`: still loading when
/// nothing arrived, the first listed homepage when it is not empty, and
/// unavailable otherwise.
pub fn homepage_view(details: &Option<CoinDetails>) -> (v: HomepageView)
    ensures
        match *details {
            None => v is Loading,
            Some(d) => if d.homepage@.len() > 0 && d.homepage@[0]@.len() > 0 {
                v matches HomepageView::Link(h) && h@ == d.homepage@[0]@
            } else {
                v is Unavailable
            },
        },
{
    match details {
        None => HomepageView::Loading,
        Some(d) => {
            if d.homepage.len() > 0 && !d.homepage[0].as_str().is_empty() {
                HomepageView::Link(d.homepage[0].clone())
            } else {
                HomepageView::Unavailable
            }
        },
    }
}

/// `part` is the text of `s` before its first `sep`, or all of `s` when it
/// holds no `sep`.
pub open spec fn is_first_segment(s: Seq<char>, sep: char, part: Seq<char>) -> bool {
    &&& part.len() <= s.len()
    &&& part == s.take(part.len() as int)
    &&& !part.contains(sep)
    &&& part.len() < s.len() ==> s[part.len() as int] == sep
}

/// The date of a timestamp written as `date` `T` `time`: the text before the
/// first `T`, or the whole text when there is none.
pub fn date_part(last_updated: &str) -> (date: &str)
    ensures
        is_first_segment(last_updated@, 'T', date@),
{
    let cs = chars_of(last_updated);
    let mut k: usize = 0;
    while k < cs.len() && cs[k] != 'T'
        invariant
            cs@ == last_updated@,
            k <= cs@.len(),
            forall|j: int| 0 <= j < k ==> cs@[j] != 'T',
        decreases cs@.len() - k,
    {
        k = k + 1;
    }
    let date = last_updated.substring_char(0, k);
    proof {
        assert(date@ =~= last_updated@.take(k as int));
        if date@.contains('T') {
            let j: int = choose|j: int| 0 <= j < date@.len() && date@[j] == 'T';
            assert(cs@[j] == 'T');
        }
    }
    date
}

} // verus!
