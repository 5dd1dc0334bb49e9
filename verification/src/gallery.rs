use vstd::prelude::*;

verus! {

/// The image after the selected one (the first when none is selected),
/// going round to the first after the last; nothing changes without images.
pub open spec fn focus_next_spec(selected: Option<usize>, count: nat) -> Option<usize> {
    if count == 0 {
        selected
    } else {
        let idx = match selected { Some(i) => i as nat, None => 0 };
        Some(((idx + 1) % count) as usize)
    }
}

/// The image before the selected one (the first when none is selected),
/// going round to the last before the first; nothing changes without images.
pub open spec fn focus_prev_spec(selected: Option<usize>, count: nat) -> Option<usize> {
    if count == 0 {
        selected
    } else {
        let idx = match selected { Some(i) => i as nat, None => 0 };
        Some((if idx == 0 { count - 1 } else { idx - 1 }) as usize)
    }
}

/// Moves the gallery's focus to the next image; see `focus_next_spec`.
pub fn focus_next(selected: Option<usize>, count: usize) -> (r: Option<usize>)
    requires
        count > 0 ==> match selected { Some(i) => i < usize::MAX, None => true },
    ensures
        r == focus_next_spec(selected, count as nat),
{
    if count == 0 {
        return selected;
    }
    let idx = match selected {
        Some(i) => i,
        None => 0,
    };
    Some((idx + 1) % count)
}

/// Moves the gallery's focus to the previous image; see `focus_prev_spec`.
pub fn focus_prev(selected: Option<usize>, count: usize) -> (r: Option<usize>)
    ensures
        r == focus_prev_spec(selected, count as nat),
{
    if count == 0 {
        return selected;
    }
    let idx = match selected {
        Some(i) => i,
        None => 0,
    };
    Some(if idx == 0 { count - 1 } else { idx - 1 })
}

/// `c` and `lower` are the same letter, whatever the case of `c`.
pub open spec fn ascii_eq_ignore_case(c: char, lower: char) -> bool {
    c == lower || ('a' <= lower && lower <= 'z' && (c as u32) + 32 == lower as u32)
}

/// File extensions shown in the gallery: `png` and `jpg`, in any case.
pub open spec fn is_image_extension(ext: Seq<char>) -> bool {
    ext.len() == 3 && (
        (ascii_eq_ignore_case(ext[0], 'p') && ascii_eq_ignore_case(ext[1], 'n') && ascii_eq_ignore_case(ext[2], 'g'))
        || (ascii_eq_ignore_case(ext[0], 'j') && ascii_eq_ignore_case(ext[1], 'p') && ascii_eq_ignore_case(ext[2], 'g')))
}

fn eq_ignore_case(c: char, lower: char) -> (r: bool)
    ensures
        r == ascii_eq_ignore_case(c, lower),
{
    c == lower || ('a' <= lower && lower <= 'z' && (c as u32) + 32 == lower as u32)
}

/// Whether a file with the extension `ext` is shown in the gallery.
pub fn is_gallery_image(ext: &str) -> (r: bool)
    ensures
        r == is_image_extension(ext@),
{
    if ext.unicode_len() != 3 {
        return false;
    }
    let a = ext.get_char(0);
    let b = ext.get_char(1);
    let c = ext.get_char(2);
    (eq_ignore_case(a, 'p') && eq_ignore_case(b, 'n') && eq_ignore_case(c, 'g'))
        || (eq_ignore_case(a, 'j') && eq_ignore_case(b, 'p') && eq_ignore_case(c, 'g'))
}

/// Going forward then back returns to the image selected before.
pub proof fn law_focus_next_then_prev(i: usize, count: nat)
    requires
        i < count,
        count <= usize::MAX,
    ensures
        focus_prev_spec(focus_next_spec(Some(i), count), count) == Some(i),
{
    if i + 1 < count {
        assert((i + 1) % (count as int) == i + 1) by (nonlinear_arith)
            requires i + 1 < count;
    } else {
        assert((i + 1) % (count as int) == 0) by (nonlinear_arith)
            requires i + 1 == count, count > 0;
    }
}

} // verus!
