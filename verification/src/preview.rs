//! Navigation state of a preview: paging through the rendered pages of a
//! PDF and stepping through the frames of an animation.

use vstd::prelude::*;

verus! {

/// The "Previous" control is enabled unless the first page is shown.
pub fn can_go_previous(current_page: usize) -> (enabled: bool)
    ensures
        enabled == (current_page > 0),
{
    current_page != 0
}

/// The "Next" control is enabled unless the last page is shown.
pub fn can_go_next(current_page: usize, page_count: usize) -> (enabled: bool)
    ensures
        enabled == (current_page + 1 < page_count),
{
    current_page < page_count && page_count - current_page > 1
}

/// The page shown after "Previous": one back, never before the first.
pub fn previous_page(current_page: usize) -> (page: usize)
    ensures
        page == if current_page > 0 { current_page - 1 } else { 0 },
{
    current_page.saturating_sub(1)
}

/// The page shown after "Next": one on, never past the last.
pub fn next_page(current_page: usize, page_count: usize) -> (page: usize)
    requires
        page_count > 0,
    ensures
        page == if current_page + 1 < page_count { current_page + 1 } else { (page_count - 1) as int },
        page < page_count,
{
    if current_page < page_count - 1 {
        current_page + 1
    } else {
        page_count - 1
    }
}

/// The frame shown next: once the current frame's delay has elapsed the
/// animation moves on, wrapping from the last frame to the first.
pub fn next_frame(current_frame: usize, frame_count: usize, delay_elapsed: bool) -> (frame: usize)
    requires
        frame_count > 0,
        current_frame < usize::MAX,
    ensures
        frame == if delay_elapsed { (current_frame + 1) % (frame_count as int) } else {
            current_frame as int
        },
        delay_elapsed ==> frame < frame_count,
{
    if delay_elapsed {
        let next = (current_frame + 1) % frame_count;
        proof {
            vstd::arithmetic::div_mod::lemma_mod_pos_bound(
                (current_frame + 1) as int,
                frame_count as int,
            );
        }
        next
    } else {
        current_frame
    }
}

} // verus!
