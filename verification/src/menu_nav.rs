//! Keyboard navigation of the menu bar: what one frame's arrow keys do inside
//! an open top-level dropdown or an open submenu.
//!
//! Up/Down move the highlighted item, wrapping at the ends; Left/Right switch
//! to the previous/next top-level menu, wrapping too; in a submenu, Left backs
//! out to its trigger row. Opening with nothing focused lands on the first
//! item, but only the first frame the items appear, so focus is never stolen
//! back from something else afterwards.

use vstd::prelude::*;

verus! {

/// How many top-level menus the menu bar has.
pub const TOP_MENU_COUNT: usize = 8;

/// The name of the top-level menu at `index`, in menu-bar order.
pub open spec fn top_menu_name(index: int) -> Seq<char> {
    if index == 0 {
        "File"@
    } else if index == 1 {
        "Edit"@
    } else if index == 2 {
        "View"@
    } else if index == 3 {
        "Tools"@
    } else if index == 4 {
        "Versions"@
    } else if index == 5 {
        "Collaborate"@
    } else if index == 6 {
        "Window"@
    } else {
        "Help"@
    }
}

/// The top-level menus, in menu-bar order (the cycle Left/Right go through).
pub fn top_menu_label(index: usize) -> (label: &'static str)
    requires
        index < TOP_MENU_COUNT,
    ensures
        label@ == top_menu_name(index as int),
{
    match index {
        0 => "File",
        1 => "Edit",
        2 => "View",
        3 => "Tools",
        4 => "Versions",
        5 => "Collaborate",
        6 => "Window",
        _ => "Help",
    }
}

/// The arrow keys pressed this frame.
#[derive(Debug, Clone, Copy, PartialEq, Eq, Structural)]
pub struct ArrowKeys {
    pub up: bool,
    pub down: bool,
    pub left: bool,
    pub right: bool,
}

/// The item after `current`, wrapping from the last to the first.
fn wrap_next(current: usize, len: usize) -> (next: usize)
    requires
        current < len,
    ensures
        next == (current + 1) % (len as int),
{
    if current + 1 == len {
        assert((current + 1) % (len as int) == 0) by (nonlinear_arith)
            requires
                current + 1 == len,
        ;
        0
    } else {
        assert((current + 1) % (len as int) == current + 1) by (nonlinear_arith)
            requires
                current + 1 < len,
        ;
        current + 1
    }
}

/// The item before `current`, wrapping from the first to the last.
fn wrap_previous(current: usize, len: usize) -> (previous: usize)
    requires
        current < len,
    ensures
        previous == (current + len - 1) % (len as int),
{
    if current == 0 {
        assert((current + len - 1) % (len as int) == len - 1) by (nonlinear_arith)
            requires
                current == 0,
                len > 0,
        ;
        len - 1
    } else {
        assert((current + len - 1) % (len as int) == current - 1) by (nonlinear_arith)
            requires
                0 < current < len,
        ;
        current - 1
    }
}

/// What one frame of dropdown navigation asks for.
#[derive(Debug, Clone, Copy, PartialEq, Eq, Structural)]
pub struct DropdownStep {
    /// Forget that the dropdown's items were seen (it is closed).
    pub clear_seen: bool,
    /// Remember that the dropdown's items were seen this frame.
    pub mark_seen: bool,
    /// Keep arrow keys on this item instead of egui's spatial focus moves.
    pub lock_focus: Option<usize>,
    /// Move keyboard focus to this item.
    pub focus: Option<usize>,
    /// Open this top-level menu (closing the others).
    pub open_menu: Option<usize>,
}

/// The item Up/Down move to from `current` among `len` items, if either is
/// pressed (Down wins when both are).
pub open spec fn arrow_target(current: int, len: int, keys: ArrowKeys) -> Option<int> {
    if keys.down {
        Some((current + 1) % len)
    } else if keys.up {
        Some((current + len - 1) % len)
    } else {
        None
    }
}

/// The item index as an `int`.
pub open spec fn opt_int(o: Option<usize>) -> Option<int> {
    match o {
        Some(i) => Some(i as int),
        None => None,
    }
}

/// One frame of arrow-key handling for the open top-level dropdown `menu`.
/// `item_count` items are focusable this frame, `focused` is the index among
/// them of the focused widget (if it is one of them), and `seen_before` says
/// whether the items were already there on an earlier frame of this opening.
pub fn dropdown_step(
    menu: usize,
    is_open: bool,
    item_count: usize,
    seen_before: bool,
    focused: Option<usize>,
    keys: ArrowKeys,
) -> (step: DropdownStep)
    requires
        menu < TOP_MENU_COUNT,
        focused matches Some(f) ==> f < item_count,
    ensures
        step.clear_seen == !is_open,
        step.mark_seen == (is_open && item_count > 0),
        !is_open || item_count == 0 ==> step.lock_focus is None && step.focus is None
            && step.open_menu is None,
        is_open && item_count > 0 && focused is None ==> step.lock_focus is None && step.focus == (
        if seen_before {
            None::<usize>
        } else {
            Some(0usize)
        }) && step.open_menu is None,
        is_open && item_count > 0 && focused is Some ==> {
            let current = focused->0 as int;
            let target = arrow_target(current, item_count as int, keys);
            &&& step.lock_focus == focused
            &&& opt_int(step.focus) == (if target is Some && target != Some(current) {
                target
            } else {
                None
            })
            &&& opt_int(step.open_menu) == (if keys.right {
                Some((menu + 1) % (TOP_MENU_COUNT as int))
            } else if keys.left {
                Some((menu + TOP_MENU_COUNT - 1) % (TOP_MENU_COUNT as int))
            } else {
                None
            })
        },
{
    let none = DropdownStep {
        clear_seen: !is_open,
        mark_seen: false,
        lock_focus: None,
        focus: None,
        open_menu: None,
    };
    if !is_open || item_count == 0 {
        return none;
    }
    let current = match focused {
        Some(current) => current,
        None => {
            return DropdownStep {
                clear_seen: false,
                mark_seen: true,
                lock_focus: None,
                focus: if seen_before {
                    None
                } else {
                    Some(0)
                },
                open_menu: None,
            };
        },
    };
    let len = item_count;
    let next = if keys.down {
        Some(wrap_next(current, len))
    } else if keys.up {
        Some(wrap_previous(current, len))
    } else {
        None
    };
    let focus = match next {
        Some(n) => if n != current {
            Some(n)
        } else {
            None
        },
        None => None,
    };
    let open_menu = if keys.right || keys.left {
        let delta = if keys.right {
            1
        } else {
            TOP_MENU_COUNT - 1
        };
        Some((menu + delta) % TOP_MENU_COUNT)
    } else {
        None
    };
    DropdownStep { clear_seen: false, mark_seen: true, lock_focus: Some(current), focus, open_menu }
}

/// What one frame of submenu navigation asks for.
#[derive(Debug, Clone, Copy, PartialEq, Eq, Structural)]
pub struct SubmenuStep {
    pub clear_seen: bool,
    pub mark_seen: bool,
    pub lock_focus: Option<usize>,
    /// Move keyboard focus to this item (requested before any `back_out`).
    pub focus: Option<usize>,
    /// Close the submenu, keeping its parent open, and focus its trigger row.
    pub back_out: bool,
    /// The arrow keys this step used up, so the parent dropdown does not act
    /// on them too.
    pub consumed: ArrowKeys,
}

/// One frame of arrow-key handling for an open submenu: like
/// `dropdown_step`, except that Left backs out of the submenu and Right does
/// nothing here.
pub fn submenu_step(
    is_open: bool,
    item_count: usize,
    seen_before: bool,
    focused: Option<usize>,
    keys: ArrowKeys,
) -> (step: SubmenuStep)
    requires
        focused matches Some(f) ==> f < item_count,
    ensures
        step.clear_seen == !is_open,
        step.mark_seen == (is_open && item_count > 0),
        !(is_open && item_count > 0 && focused is Some) ==> step.lock_focus is None && !step.back_out
            && step.consumed == (ArrowKeys { up: false, down: false, left: false, right: false }),
        is_open && item_count > 0 && focused is None ==> step.focus == (if seen_before {
            None::<usize>
        } else {
            Some(0usize)
        }),
        !is_open || item_count == 0 ==> step.focus is None,
        is_open && item_count > 0 && focused is Some ==> {
            let current = focused->0 as int;
            let target = arrow_target(current, item_count as int, keys);
            &&& step.lock_focus == focused
            &&& opt_int(step.focus) == (if target is Some && target != Some(current) {
                target
            } else {
                None
            })
            &&& step.back_out == keys.left
            &&& step.consumed == (ArrowKeys {
                down: keys.down,
                up: keys.up && !keys.down,
                left: keys.left,
                right: false,
            })
        },
{
    let nothing = ArrowKeys { up: false, down: false, left: false, right: false };
    if !is_open || item_count == 0 {
        return SubmenuStep {
            clear_seen: !is_open,
            mark_seen: false,
            lock_focus: None,
            focus: None,
            back_out: false,
            consumed: nothing,
        };
    }
    let current = match focused {
        Some(current) => current,
        None => {
            return SubmenuStep {
                clear_seen: false,
                mark_seen: true,
                lock_focus: None,
                focus: if seen_before {
                    None
                } else {
                    Some(0)
                },
                back_out: false,
                consumed: nothing,
            };
        },
    };
    let len = item_count;
    let next = if keys.down {
        Some(wrap_next(current, len))
    } else if keys.up {
        Some(wrap_previous(current, len))
    } else {
        None
    };
    let focus = match next {
        Some(n) => if n != current {
            Some(n)
        } else {
            None
        },
        None => None,
    };
    SubmenuStep {
        clear_seen: false,
        mark_seen: true,
        lock_focus: Some(current),
        focus,
        back_out: keys.left,
        consumed: ArrowKeys { down: keys.down, up: keys.up && !keys.down, left: keys.left, right: false },
    }
}

/// Whether a Right press opens a submenu from its trigger row: only when the
/// trigger is focused and the submenu is not already open.
pub fn right_opens_submenu(trigger_focused: bool, already_open: bool, right: bool) -> (opens: bool)
    ensures
        opens == (trigger_focused && !already_open && right),
{
    trigger_focused && !already_open && right
}

/// The arrow keys left for the parent dropdown once a submenu has used some
/// up this frame: a key a submenu consumed (Right that opened it, or the
/// Up/Down/Left it handled) is not seen again by the parent, so one press
/// never both acts inside a submenu and switches the top-level menu.
pub fn unconsumed_keys(keys: ArrowKeys, consumed: ArrowKeys) -> (left_over: ArrowKeys)
    ensures
        left_over.up == (keys.up && !consumed.up),
        left_over.down == (keys.down && !consumed.down),
        left_over.left == (keys.left && !consumed.left),
        left_over.right == (keys.right && !consumed.right),
{
    ArrowKeys {
        up: keys.up && !consumed.up,
        down: keys.down && !consumed.down,
        left: keys.left && !consumed.left,
        right: keys.right && !consumed.right,
    }
}

/// Pressing Down `item_count` times from any item of a dropdown comes back to
/// it, and Up undoes Down: Up/Down wrap around at both ends.
pub proof fn law_arrows_wrap(current: int, len: int)
    requires
        0 <= current < len,
    ensures
        0 <= (current + 1) % len < len,
        ((current + 1) % len + len - 1) % len == current,
        current == len - 1 ==> (current + 1) % len == 0,
        current == 0 ==> (current + len - 1) % len == len - 1,
{
    if current + 1 == len {
        assert((current + 1) % len == 0) by (nonlinear_arith)
            requires
                current + 1 == len,
                len > 0,
        ;
    } else {
        assert((current + 1) % len == current + 1) by (nonlinear_arith)
            requires
                0 <= current + 1 < len,
        ;
    }
    assert((current + len - 1) % len == if current == 0 {
        len - 1
    } else {
        current - 1
    }) by (nonlinear_arith)
        requires
            0 <= current < len,
    ;
    let n = (current + 1) % len;
    assert((n + len - 1) % len == if n == 0 {
        len - 1
    } else {
        n - 1
    }) by (nonlinear_arith)
        requires
            0 <= n < len,
    ;
}

/// Right then Left (or Left then Right) between top-level menus comes back to
/// the same menu, and both wrap around the menu bar.
pub proof fn law_menu_switch_round_trips(menu: int)
    requires
        0 <= menu < TOP_MENU_COUNT,
    ensures
        (((menu + 1) % (TOP_MENU_COUNT as int)) + TOP_MENU_COUNT - 1) % (TOP_MENU_COUNT as int)
            == menu,
        (((menu + TOP_MENU_COUNT - 1) % (TOP_MENU_COUNT as int)) + 1) % (TOP_MENU_COUNT as int)
            == menu,
{
}

} // verus!
