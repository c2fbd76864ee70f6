//! Properties that relate several operations of the library, or hold of every state.

use vstd::prelude::*;

use crate::config::bar_settings::{bars_add, default_bar, first_bar_with, BarModel};
use crate::config::keybinds::{clashes, keybinds_add, last_clash, KeybindModel};
use crate::config::options::{
    bool_word, is_color_setting, option_word,
    border_options_add, is_bool_option, is_border_setting, is_name_position, is_option_name, is_size_option, option_bool, option_u32,
    options_add, other_options_add, OptionsModel,
};
use crate::config::workspace_settings::{lemma_first_with_identifier, workspace_add, WorkspaceSettingsModel};
use crate::numbers::{decimal, digit_char, digit_value, is_digit, parse_uint, read_digits};
use crate::wm::actions::{action_readable, action_text, direction_name, direction_named, parse_action, ActionModel, Direction};
use crate::wm::state::{drag_distance, dragged, first_monitor, point_in, under_cursor, workspace_index, focus_result, focus_step, focused_or_first, monitor_holding, monitor_with_id, pointer_diff, resized, FocusStep, MIN_HEIGHT, MIN_WIDTH};
use crate::wm::geometry::Geometry;
use crate::wm::state::{
    first_window, only_changed_at, placed_and_focused, refocused, relaid_with_containers, relaid_with_inserted, toggled,
    window_moved, window_removed, with_containers, with_inserted,
};
use crate::wm::container::{first_with_window, has_window, new_container, Client};
use crate::wm::workspace::{inserted_one_by_one, layout_applied, lemma_first_window_unique};
use crate::wm::layouts::LayoutEffect;
use crate::wm::atoms::padded;
use crate::utils::{font_fold, font_step, FontSlant, FontWeight};
use crate::text::{join_with, split_fold, split_on};
use crate::error::ErrorModel;
use crate::wm::workspace::Workspace;
use crate::wm::container::{
    has_id, ids_unique, index_of_id, next_index, previous_index, swapped, Container, ContainerId,
};
use crate::wm::focus_stack::seq_without;
use crate::wm::layouts::{LayoutType, ALL_LAYOUTS};
use crate::wm::monitors::{showing, with_workspace, MonitorModel};
use crate::wm::workspace::{mask_bits, next_layout, position_of, WorkspaceId};

verus! {

proof fn lemma_index_of_id(s: Seq<Container>, i: int)
    requires
        ids_unique(s),
        0 <= i < s.len(),
    ensures
        has_id(s, s[i].container_id),
        index_of_id(s, s[i].container_id) == i,
{
    assert(has_id(s, s[i].container_id));
}

/// Swapping keeps the number of containers.
pub proof fn lemma_swapped_len(s: Seq<Container>, a: ContainerId, b: ContainerId)
    requires
        has_id(s, a),
        has_id(s, b),
    ensures
        swapped(s, a, b).len() == s.len(),
{
}

/// Swapping the same two containers twice puts every container back in its place.
pub proof fn law_swap_twice_restores(s: Seq<Container>, a: ContainerId, b: ContainerId)
    requires
        ids_unique(s),
        has_id(s, a),
        has_id(s, b),
    ensures
        swapped(swapped(s, a, b), a, b) == s,
{
    let ia = index_of_id(s, a);
    let ib = index_of_id(s, b);
    let t = swapped(s, a, b);
    assert(t[ib].container_id == a);
    assert(t[ia].container_id == b);
    assert(ids_unique(t)) by {
        assert forall|i: int, j: int| 0 <= i < t.len() && 0 <= j < t.len() && i != j implies t[i].container_id != t[j].container_id by {
            let pi = if i == ia { ib } else if i == ib { ia } else { i };
            let pj = if j == ia { ib } else if j == ib { ia } else { j };
            assert(t[i] == s[pi]);
            assert(t[j] == s[pj]);
        }
    }
    lemma_index_of_id(t, ib);
    lemma_index_of_id(t, ia);
    assert(swapped(t, a, b) =~= s);
}

/// A container put last under a fresh id is found under that id.
pub proof fn law_inserted_container_found(s: Seq<Container>, c: Container)
    requires
        ids_unique(s),
        !has_id(s, c.container_id),
    ensures
        has_id(s.push(c), c.container_id),
        s.push(c)[index_of_id(s.push(c), c.container_id)] == c,
        ids_unique(s.push(c)),
{
    let t = s.push(c);
    assert(ids_unique(t)) by {
        assert forall|i: int, j: int| 0 <= i < t.len() && 0 <= j < t.len() && i != j implies t[i].container_id != t[j].container_id by {
            if i < s.len() && j < s.len() {
                assert(t[i] == s[i] && t[j] == s[j]);
            } else if i < s.len() {
                assert(t[i] == s[i]);
            } else if j < s.len() {
                assert(t[j] == s[j]);
            }
        }
    }
    lemma_index_of_id(t, s.len() as int);
}

/// Removing a container right after putting it last leaves the list as it was.
pub proof fn law_remove_undoes_insert(s: Seq<Container>, c: Container)
    requires
        ids_unique(s),
        !has_id(s, c.container_id),
    ensures
        s.push(c).remove(index_of_id(s.push(c), c.container_id)) == s,
{
    law_inserted_container_found(s, c);
    lemma_index_of_id(s.push(c), s.len() as int);
    assert(s.push(c).remove(s.len() as int) =~= s);
}

/// Going to the next container and then to the previous one comes back (both go round).
pub proof fn law_next_then_previous(len: int, i: int)
    requires
        0 <= i < len,
    ensures
        0 <= next_index(len, i) < len,
        previous_index(len, next_index(len, i)) == i,
        next_index(len, previous_index(len, i)) == i,
{
}

/// Focusing a client puts it on top of the focus stack, once, above the other clients in
/// their order.
pub proof fn law_focus_puts_client_on_top(s: Seq<u32>, c: u32)
    requires
        s.no_duplicates(),
    ensures
        (seq![c] + seq_without(s, c))[0] == c,
        (seq![c] + seq_without(s, c)).no_duplicates(),
        seq_without(seq![c] + seq_without(s, c), c) == seq_without(s, c),
{
    let w = seq_without(s, c);
    assert(!w.contains(c) && w.no_duplicates()) by {
        if s.contains(c) {
            let k = s.index_of(c);
            assert forall|i: int| 0 <= i < w.len() implies w[i] != c by {
                if i < k {
                    assert(w[i] == s[i]);
                } else {
                    assert(w[i] == s[i + 1]);
                }
            }
            assert forall|i: int, j: int| 0 <= i < w.len() && 0 <= j < w.len() && i != j implies w[i] != w[j] by {
                let pi = if i < k { i } else { i + 1 };
                let pj = if j < k { j } else { j + 1 };
                assert(w[i] == s[pi] && w[j] == s[pj]);
            }
        }
    }
    let t = seq![c] + w;
    assert(t.no_duplicates()) by {
        assert forall|i: int, j: int| 0 <= i < t.len() && 0 <= j < t.len() && i != j implies t[i] != t[j] by {
            if i > 0 && j > 0 {
                assert(t[i] == w[i - 1] && t[j] == w[j - 1]);
            } else if i == 0 {
                assert(t[j] == w[j - 1]);
            } else {
                assert(t[i] == w[i - 1]);
            }
        }
    }
    assert(t.contains(c) && t.index_of(c) == 0) by {
        assert(t[0] == c);
    }
    assert(t.remove(0) =~= w);
}

/// A client removed from the focus stack is no longer in it, and the others keep their
/// order.
pub proof fn law_removed_client_gone(s: Seq<u32>, c: u32)
    requires
        s.no_duplicates(),
    ensures
        !seq_without(s, c).contains(c),
        s.contains(c) ==> seq_without(s, c).len() == s.len() - 1,
        !s.contains(c) ==> seq_without(s, c) == s,
{
    if s.contains(c) {
        let k = s.index_of(c);
        let w = seq_without(s, c);
        assert forall|i: int| 0 <= i < w.len() implies w[i] != c by {
            if i < k {
                assert(w[i] == s[i]);
            } else {
                assert(w[i] == s[i + 1]);
            }
        }
    }
}

/// Placing a workspace on a monitor twice places it once.
pub proof fn law_add_workspace_idempotent(m: MonitorModel, w: WorkspaceId)
    ensures
        with_workspace(with_workspace(m, w), w) == with_workspace(m, w),
        with_workspace(m, w).workspaces.contains(w),
{
    if !m.workspaces.contains(w) {
        assert(m.workspaces.push(w)[m.workspaces.len() as int] == w);
    }
}

/// A workspace placed on a monitor can be shown there, and is then the open one; showing
/// it again changes nothing.
pub proof fn law_placed_workspace_can_be_shown(m: MonitorModel, w: WorkspaceId)
    ensures
        with_workspace(m, w).workspaces.contains(w),
        showing(with_workspace(m, w), w).open_workspace == Some(w),
        showing(showing(m, w), w) == showing(m, w),
{
    law_add_workspace_idempotent(m, w);
}

/// With every layout allowed, the layouts' mask bits are the four lowest bits, in order.
proof fn lemma_all_layout_bits(n: nat)
    requires
        4 <= n <= 64,
    ensures
        mask_bits(ALL_LAYOUTS, n) == seq![1u64, 2u64, 4u64, 8u64],
    decreases n,
{
    if n == 4 {
        assert(15u64 & (1u64 << 0u64) != 0) by (bit_vector);
        assert(15u64 & (1u64 << 1u64) != 0) by (bit_vector);
        assert(15u64 & (1u64 << 2u64) != 0) by (bit_vector);
        assert(15u64 & (1u64 << 3u64) != 0) by (bit_vector);
        assert(1u64 << 0u64 == 1u64) by (bit_vector);
        assert(1u64 << 1u64 == 2u64) by (bit_vector);
        assert(1u64 << 2u64 == 4u64) by (bit_vector);
        assert(1u64 << 3u64 == 8u64) by (bit_vector);
        reveal_with_fuel(mask_bits, 5);
        assert(mask_bits(ALL_LAYOUTS, 4) =~= seq![1u64, 2u64, 4u64, 8u64]);
    } else {
        lemma_all_layout_bits((n - 1) as nat);
        let k: u64 = (n - 1) as u64;
        assert(15u64 & (1u64 << k) == 0) by (bit_vector)
            requires
                4 <= k < 64,
        ;
    }
}

/// The layout after `l` when every layout is allowed.
pub open spec fn next_of_all(l: LayoutType) -> LayoutType {
    match l {
        LayoutType::TilingEqualHorizontal => LayoutType::TilingEqualVertical,
        LayoutType::TilingEqualVertical => LayoutType::TilingMasterStack,
        LayoutType::TilingMasterStack => LayoutType::StackingHorizontal,
        LayoutType::StackingHorizontal => LayoutType::TilingEqualHorizontal,
    }
}

/// With every layout allowed, cycling goes through all four layouts in order, and four
/// cycles come back to the layout they started from.
pub proof fn law_cycle_all_layouts(l: LayoutType)
    ensures
        next_layout(ALL_LAYOUTS, l) == Some(Ok::<LayoutType, u64>(next_of_all(l))),
        next_of_all(next_of_all(next_of_all(next_of_all(l)))) == l,
        next_of_all(l) != l,
{
    lemma_all_layout_bits(64);
    let bits = mask_bits(ALL_LAYOUTS, 64);
    reveal_with_fuel(position_of, 5);
    assert(bits[0] == 1u64 && bits[1] == 2u64 && bits[2] == 4u64 && bits[3] == 8u64);
}

/// Applying the same border setting line twice has the effect of applying it once.
#[verifier::rlimit(40)]
proof fn lemma_border_line_idempotent(o: OptionsModel, name: Seq<char>, value: Seq<char>)
    requires
        border_options_add(o, name, value) is Ok,
    ensures
        border_options_add(border_options_add(o, name, value)->Ok_0, name, value) == border_options_add(o, name, value),
{
    if name == "border_up"@ {
    } else if name == "border_down"@ {
    } else if name == "border_left"@ {
    } else if name == "border_right"@ {
    } else if name == "border_up_size"@ {
    } else if name == "border_down_size"@ {
    } else if name == "border_left_size"@ {
    } else if name == "border_right_size"@ {
    } else if name == "border_color"@ {
    }
}

/// Applying the same other setting line twice has the effect of applying it once.
#[verifier::rlimit(40)]
proof fn lemma_other_line_idempotent(o: OptionsModel, name: Seq<char>, value: Seq<char>)
    requires
        other_options_add(o, name, value) is Ok,
    ensures
        other_options_add(other_options_add(o, name, value)->Ok_0, name, value) == other_options_add(o, name, value),
{
}

/// A setting line fails exactly when it names no setting, when the value of a yes/no
/// setting is not `true` or `false`, when the value of a size setting is not a `u32`
/// (in any case), or when the window name position is not `left`, `middle` or `right`.
pub proof fn law_option_line_fails_exactly(o: OptionsModel, name: Seq<char>, value: Seq<char>)
    ensures
        (options_add(o, name, value) is Err) <==> (!is_option_name(name) || (is_bool_option(name) && option_bool(value) is None)
            || (is_size_option(name) && option_u32(value) is Err) || (name == "window_name_position"@ && !is_name_position(value))),
{
    reveal_strlit("border_up");
    reveal_strlit("border_down");
    reveal_strlit("border_left");
    reveal_strlit("border_right");
    reveal_strlit("border_up_size");
    reveal_strlit("border_down_size");
    reveal_strlit("border_left_size");
    reveal_strlit("border_right_size");
    reveal_strlit("border_color");
    reveal_strlit("show_window_name");
    reveal_strlit("window_name_position");
    reveal_strlit("display_name");
    reveal_strlit("gap_top");
    reveal_strlit("gap_bottom");
    reveal_strlit("gap_left");
    reveal_strlit("gap_right");
    reveal_strlit("gap_top_size");
    reveal_strlit("gap_bottom_size");
    reveal_strlit("gap_left_size");
    reveal_strlit("gap_right_size");
    assert("border_right"@[7] == 'r' && "border_color"@[7] == 'c' && "display_name"@[0] == 'd' && "gap_top_size"@[0] == 'g');
    assert("border_right"@[0] == 'b' && "border_color"@[0] == 'b');
    assert("show_window_name"@[0] == 's' && "border_down_size"@[0] == 'b' && "border_left_size"@[0] == 'b');
    assert("gap_bottom_size"@[0] == 'g' && "border_left"@[0] == 'b' && "border_down"@[0] == 'b');
    if is_option_name(name) {
        if name == "border_up"@ {
            assert(name.len() == 9 && name[0] == 'b' && name[7] == 'u');
            assert(is_bool_option(name) && !is_size_option(name) && name != "window_name_position"@);
            assert((options_add(o, name, value) is Err) <==> option_bool(value) is None);
        } else if name == "border_down"@ {
            assert(name.len() == 11 && name[0] == 'b' && name[7] == 'd');
            assert(is_bool_option(name) && !is_size_option(name) && name != "window_name_position"@);
            assert((options_add(o, name, value) is Err) <==> option_bool(value) is None);
        } else if name == "border_left"@ {
            assert(name.len() == 11 && name[0] == 'b' && name[7] == 'l');
            assert(is_bool_option(name) && !is_size_option(name) && name != "window_name_position"@);
            assert((options_add(o, name, value) is Err) <==> option_bool(value) is None);
        } else if name == "border_right"@ {
            assert(name.len() == 12 && name[0] == 'b' && name[7] == 'r');
            assert(is_bool_option(name) && !is_size_option(name) && name != "window_name_position"@);
            assert((options_add(o, name, value) is Err) <==> option_bool(value) is None);
        } else if name == "show_window_name"@ {
            assert(name.len() == 16 && name[0] == 's' && name[7] == 'n');
            assert(is_bool_option(name) && !is_size_option(name) && name != "window_name_position"@);
            assert((options_add(o, name, value) is Err) <==> option_bool(value) is None);
        } else if name == "gap_top"@ {
            assert(name.len() == 7 && name[0] == 'g');
            assert(is_bool_option(name) && !is_size_option(name) && name != "window_name_position"@);
            assert((options_add(o, name, value) is Err) <==> option_bool(value) is None);
        } else if name == "gap_bottom"@ {
            assert(name.len() == 10 && name[0] == 'g' && name[7] == 't');
            assert(is_bool_option(name) && !is_size_option(name) && name != "window_name_position"@);
            assert((options_add(o, name, value) is Err) <==> option_bool(value) is None);
        } else if name == "gap_left"@ {
            assert(name.len() == 8 && name[0] == 'g' && name[7] == 't');
            assert(is_bool_option(name) && !is_size_option(name) && name != "window_name_position"@);
            assert((options_add(o, name, value) is Err) <==> option_bool(value) is None);
        } else if name == "gap_right"@ {
            assert(name.len() == 9 && name[0] == 'g' && name[7] == 'h');
            assert(is_bool_option(name) && !is_size_option(name) && name != "window_name_position"@);
            assert((options_add(o, name, value) is Err) <==> option_bool(value) is None);
        } else if name == "border_up_size"@ {
            assert(name.len() == 14 && name[0] == 'b' && name[7] == 'u');
            assert(!is_bool_option(name) && is_size_option(name) && name != "window_name_position"@);
            assert((options_add(o, name, value) is Err) <==> option_u32(value) is Err);
        } else if name == "border_down_size"@ {
            assert(name.len() == 16 && name[0] == 'b' && name[7] == 'd');
            assert(!is_bool_option(name) && is_size_option(name) && name != "window_name_position"@);
            assert((options_add(o, name, value) is Err) <==> option_u32(value) is Err);
        } else if name == "border_left_size"@ {
            assert(name.len() == 16 && name[0] == 'b' && name[7] == 'l');
            assert(!is_bool_option(name) && is_size_option(name) && name != "window_name_position"@);
            assert((options_add(o, name, value) is Err) <==> option_u32(value) is Err);
        } else if name == "border_right_size"@ {
            assert(name.len() == 17 && name[0] == 'b' && name[7] == 'r');
            assert(!is_bool_option(name) && is_size_option(name) && name != "window_name_position"@);
            assert((options_add(o, name, value) is Err) <==> option_u32(value) is Err);
        } else if name == "gap_top_size"@ {
            assert(name.len() == 12 && name[0] == 'g' && name[7] == '_');
            assert(!is_bool_option(name) && is_size_option(name) && name != "window_name_position"@);
            assert((options_add(o, name, value) is Err) <==> option_u32(value) is Err);
        } else if name == "gap_bottom_size"@ {
            assert(name.len() == 15 && name[0] == 'g' && name[7] == 't');
            assert(!is_bool_option(name) && is_size_option(name) && name != "window_name_position"@);
            assert((options_add(o, name, value) is Err) <==> option_u32(value) is Err);
        } else if name == "gap_left_size"@ {
            assert(name.len() == 13 && name[0] == 'g' && name[7] == 't');
            assert(!is_bool_option(name) && is_size_option(name) && name != "window_name_position"@);
            assert((options_add(o, name, value) is Err) <==> option_u32(value) is Err);
        } else if name == "gap_right_size"@ {
            assert(name.len() == 14 && name[0] == 'g' && name[7] == 'h');
            assert(!is_bool_option(name) && is_size_option(name) && name != "window_name_position"@);
            assert((options_add(o, name, value) is Err) <==> option_u32(value) is Err);
        } else if name == "border_color"@ {
            assert(name.len() == 12 && name[0] == 'b' && name[7] == 'c');
            assert(!is_bool_option(name) && !is_size_option(name) && name != "window_name_position"@);
            assert(options_add(o, name, value) is Ok);
        } else if name == "display_name"@ {
            assert(name.len() == 12 && name[0] == 'd' && name[7] == '_');
            assert(!is_bool_option(name) && !is_size_option(name) && name != "window_name_position"@);
            assert(options_add(o, name, value) is Ok);
        } else {
            assert(name == "window_name_position"@);
            assert(!is_bool_option(name) && !is_size_option(name));
        }
    } else {
        assert(!is_border_setting(name));
    }
}

/// A number read within a bound is within it.
proof fn lemma_read_digits_bound(s: Seq<char>, max: nat)
    ensures
        read_digits(s, max) matches Ok(v) ==> v <= max,
    decreases s.len(),
{
    if s.len() > 0 {
        lemma_read_digits_bound(s.drop_last(), max);
    }
}

/// A size read from a setting value fits in 32 bits.
proof fn lemma_option_u32_bound(value: Seq<char>)
    ensures
        option_u32(value) matches Ok(v) ==> v <= u32::MAX,
{
    let l = crate::text::spec_to_lowercase(value);
    lemma_read_digits_bound(l, u32::MAX as nat);
    if l.len() > 0 {
        lemma_read_digits_bound(l.drop_first(), u32::MAX as nat);
    }
}

/// A `set` line that is taken changes the setting it names and no other: every other
/// setting keeps its value, a yes/no setting takes the boolean read, a size the number
/// read, the window name position and the display name the text given, and the border
/// color the text given when it is a color (else it stays).
pub proof fn law_set_changes_only_its_option(o: OptionsModel, name: Seq<char>, value: Seq<char>)
    requires
        options_add(o, name, value) is Ok,
    ensures
        ({
            let o2 = options_add(o, name, value)->Ok_0;
            &&& forall|n2: Seq<char>| n2 != name ==> #[trigger] option_word(o2, n2) == option_word(o, n2)
            &&& is_bool_option(name) ==> option_word(o2, name) == Some(bool_word(option_bool(value)->Some_0))
            &&& is_size_option(name) ==> option_word(o2, name) == Some(decimal(option_u32(value)->Ok_0))
            &&& (name == "window_name_position"@ || name == "display_name"@) ==> option_word(o2, name) == Some(value)
            &&& name == "border_color"@ ==> option_word(o2, name) == Some(if is_color_setting(value) { value } else { o.border_color })
        }),
{
    reveal_strlit("border_up");
    reveal_strlit("border_down");
    reveal_strlit("border_left");
    reveal_strlit("border_right");
    reveal_strlit("border_up_size");
    reveal_strlit("border_down_size");
    reveal_strlit("border_left_size");
    reveal_strlit("border_right_size");
    reveal_strlit("border_color");
    reveal_strlit("show_window_name");
    reveal_strlit("window_name_position");
    reveal_strlit("display_name");
    reveal_strlit("gap_top");
    reveal_strlit("gap_bottom");
    reveal_strlit("gap_left");
    reveal_strlit("gap_right");
    reveal_strlit("gap_top_size");
    reveal_strlit("gap_bottom_size");
    reveal_strlit("gap_left_size");
    reveal_strlit("gap_right_size");
    assert("border_right"@[7] == 'r' && "border_color"@[7] == 'c' && "display_name"@[0] == 'd' && "gap_top_size"@[0] == 'g');
    assert("border_right"@[0] == 'b' && "border_color"@[0] == 'b');
    assert("show_window_name"@[0] == 's' && "border_down_size"@[0] == 'b' && "border_left_size"@[0] == 'b');
    assert("gap_bottom_size"@[0] == 'g' && "border_left"@[0] == 'b' && "border_down"@[0] == 'b');
    law_option_line_fails_exactly(o, name, value);
    if name == "border_up"@ {
        assert(name.len() == 9 && name[0] == 'b' && name[7] == 'u');
        lemma_set_border_up(o, value);
    } else if name == "border_down"@ {
        assert(name.len() == 11 && name[0] == 'b' && name[7] == 'd');
        lemma_set_border_down(o, value);
    } else if name == "border_left"@ {
        assert(name.len() == 11 && name[0] == 'b' && name[7] == 'l');
        lemma_set_border_left(o, value);
    } else if name == "border_right"@ {
        assert(name.len() == 12 && name[0] == 'b' && name[7] == 'r');
        lemma_set_border_right(o, value);
    } else if name == "border_up_size"@ {
        assert(name.len() == 14 && name[0] == 'b' && name[7] == 'u');
        lemma_set_border_up_size(o, value);
    } else if name == "border_down_size"@ {
        assert(name.len() == 16 && name[0] == 'b' && name[7] == 'd');
        lemma_set_border_down_size(o, value);
    } else if name == "border_left_size"@ {
        assert(name.len() == 16 && name[0] == 'b' && name[7] == 'l');
        lemma_set_border_left_size(o, value);
    } else if name == "border_right_size"@ {
        assert(name.len() == 17 && name[0] == 'b' && name[7] == 'r');
        lemma_set_border_right_size(o, value);
    } else if name == "border_color"@ {
        assert(name.len() == 12 && name[0] == 'b' && name[7] == 'c');
        lemma_set_border_color(o, value);
    } else if name == "show_window_name"@ {
        assert(name.len() == 16 && name[0] == 's' && name[7] == 'n');
        lemma_set_show_window_name(o, value);
    } else if name == "window_name_position"@ {
        assert(name.len() == 20 && name[0] == 'w' && name[7] == 'n');
        lemma_set_window_name_position(o, value);
    } else if name == "display_name"@ {
        assert(name.len() == 12 && name[0] == 'd' && name[7] == '_');
        lemma_set_display_name(o, value);
    } else if name == "gap_top"@ {
        assert(name.len() == 7 && name[0] == 'g');
        lemma_set_gap_top(o, value);
    } else if name == "gap_bottom"@ {
        assert(name.len() == 10 && name[0] == 'g' && name[7] == 't');
        lemma_set_gap_bottom(o, value);
    } else if name == "gap_left"@ {
        assert(name.len() == 8 && name[0] == 'g' && name[7] == 't');
        lemma_set_gap_left(o, value);
    } else if name == "gap_right"@ {
        assert(name.len() == 9 && name[0] == 'g' && name[7] == 'h');
        lemma_set_gap_right(o, value);
    } else if name == "gap_top_size"@ {
        assert(name.len() == 12 && name[0] == 'g' && name[7] == '_');
        lemma_set_gap_top_size(o, value);
    } else if name == "gap_bottom_size"@ {
        assert(name.len() == 15 && name[0] == 'g' && name[7] == 't');
        lemma_set_gap_bottom_size(o, value);
    } else if name == "gap_left_size"@ {
        assert(name.len() == 13 && name[0] == 'g' && name[7] == 't');
        lemma_set_gap_left_size(o, value);
    } else if name == "gap_right_size"@ {
        assert(name.len() == 14 && name[0] == 'g' && name[7] == 'h');
        lemma_set_gap_right_size(o, value);
    }
}

#[verifier::rlimit(50)]
proof fn lemma_set_border_up(o: OptionsModel, value: Seq<char>)
    requires
        options_add(o, "border_up"@, value) is Ok,
    ensures
        forall|n2: Seq<char>| n2 != "border_up"@ ==> #[trigger] option_word(options_add(o, "border_up"@, value)->Ok_0, n2) == option_word(o, n2),
        option_word(options_add(o, "border_up"@, value)->Ok_0, "border_up"@) == Some(bool_word(option_bool(value)->Some_0)),
{
    reveal_strlit("border_up");
    reveal_strlit("border_down");
    reveal_strlit("border_left");
    reveal_strlit("border_right");
    reveal_strlit("border_up_size");
    reveal_strlit("border_down_size");
    reveal_strlit("border_left_size");
    reveal_strlit("border_right_size");
    reveal_strlit("border_color");
    reveal_strlit("show_window_name");
    reveal_strlit("window_name_position");
    reveal_strlit("display_name");
    reveal_strlit("gap_top");
    reveal_strlit("gap_bottom");
    reveal_strlit("gap_left");
    reveal_strlit("gap_right");
    reveal_strlit("gap_top_size");
    reveal_strlit("gap_bottom_size");
    reveal_strlit("gap_left_size");
    reveal_strlit("gap_right_size");
    assert("border_right"@[7] == 'r' && "border_color"@[7] == 'c' && "display_name"@[0] == 'd' && "gap_top_size"@[0] == 'g');
    assert("border_right"@[0] == 'b' && "border_color"@[0] == 'b');
    assert("show_window_name"@[0] == 's' && "border_down_size"@[0] == 'b' && "border_left_size"@[0] == 'b');
    assert("gap_bottom_size"@[0] == 'g' && "border_left"@[0] == 'b' && "border_down"@[0] == 'b');
    assert("border_up"@.len() == 9 && "border_up"@[0] == 'b' && "border_up"@[7] == 'u');
    assert("border_down"@.len() == 11 && "border_down"@[0] == 'b' && "border_down"@[7] == 'd');
    assert("border_left"@.len() == 11 && "border_left"@[0] == 'b' && "border_left"@[7] == 'l');
    assert("border_right"@.len() == 12 && "border_right"@[0] == 'b' && "border_right"@[7] == 'r');
    assert("border_up_size"@.len() == 14 && "border_up_size"@[0] == 'b' && "border_up_size"@[7] == 'u');
    assert("border_down_size"@.len() == 16 && "border_down_size"@[0] == 'b' && "border_down_size"@[7] == 'd');
    assert("border_left_size"@.len() == 16 && "border_left_size"@[0] == 'b' && "border_left_size"@[7] == 'l');
    assert("border_right_size"@.len() == 17 && "border_right_size"@[0] == 'b' && "border_right_size"@[7] == 'r');
    assert("border_color"@.len() == 12 && "border_color"@[0] == 'b' && "border_color"@[7] == 'c');
    assert("show_window_name"@.len() == 16 && "show_window_name"@[0] == 's' && "show_window_name"@[7] == 'n');
    assert("window_name_position"@.len() == 20 && "window_name_position"@[0] == 'w' && "window_name_position"@[7] == 'n');
    assert("display_name"@.len() == 12 && "display_name"@[0] == 'd' && "display_name"@[7] == '_');
    assert("gap_top"@.len() == 7 && "gap_top"@[0] == 'g');
    assert("gap_bottom"@.len() == 10 && "gap_bottom"@[0] == 'g' && "gap_bottom"@[7] == 't');
    assert("gap_left"@.len() == 8 && "gap_left"@[0] == 'g' && "gap_left"@[7] == 't');
    assert("gap_right"@.len() == 9 && "gap_right"@[0] == 'g' && "gap_right"@[7] == 'h');
    assert("gap_top_size"@.len() == 12 && "gap_top_size"@[0] == 'g' && "gap_top_size"@[7] == '_');
    assert("gap_bottom_size"@.len() == 15 && "gap_bottom_size"@[0] == 'g' && "gap_bottom_size"@[7] == 't');
    assert("gap_left_size"@.len() == 13 && "gap_left_size"@[0] == 'g' && "gap_left_size"@[7] == 't');
    assert("gap_right_size"@.len() == 14 && "gap_right_size"@[0] == 'g' && "gap_right_size"@[7] == 'h');
    lemma_option_u32_bound(value);
    let o2 = options_add(o, "border_up"@, value)->Ok_0;
    assert forall|n2: Seq<char>| n2 != "border_up"@ implies #[trigger] option_word(o2, n2) == option_word(o, n2) by {}
}

#[verifier::rlimit(50)]
proof fn lemma_set_border_down(o: OptionsModel, value: Seq<char>)
    requires
        options_add(o, "border_down"@, value) is Ok,
    ensures
        forall|n2: Seq<char>| n2 != "border_down"@ ==> #[trigger] option_word(options_add(o, "border_down"@, value)->Ok_0, n2) == option_word(o, n2),
        option_word(options_add(o, "border_down"@, value)->Ok_0, "border_down"@) == Some(bool_word(option_bool(value)->Some_0)),
{
    reveal_strlit("border_up");
    reveal_strlit("border_down");
    reveal_strlit("border_left");
    reveal_strlit("border_right");
    reveal_strlit("border_up_size");
    reveal_strlit("border_down_size");
    reveal_strlit("border_left_size");
    reveal_strlit("border_right_size");
    reveal_strlit("border_color");
    reveal_strlit("show_window_name");
    reveal_strlit("window_name_position");
    reveal_strlit("display_name");
    reveal_strlit("gap_top");
    reveal_strlit("gap_bottom");
    reveal_strlit("gap_left");
    reveal_strlit("gap_right");
    reveal_strlit("gap_top_size");
    reveal_strlit("gap_bottom_size");
    reveal_strlit("gap_left_size");
    reveal_strlit("gap_right_size");
    assert("border_right"@[7] == 'r' && "border_color"@[7] == 'c' && "display_name"@[0] == 'd' && "gap_top_size"@[0] == 'g');
    assert("border_right"@[0] == 'b' && "border_color"@[0] == 'b');
    assert("show_window_name"@[0] == 's' && "border_down_size"@[0] == 'b' && "border_left_size"@[0] == 'b');
    assert("gap_bottom_size"@[0] == 'g' && "border_left"@[0] == 'b' && "border_down"@[0] == 'b');
    assert("border_up"@.len() == 9 && "border_up"@[0] == 'b' && "border_up"@[7] == 'u');
    assert("border_down"@.len() == 11 && "border_down"@[0] == 'b' && "border_down"@[7] == 'd');
    assert("border_left"@.len() == 11 && "border_left"@[0] == 'b' && "border_left"@[7] == 'l');
    assert("border_right"@.len() == 12 && "border_right"@[0] == 'b' && "border_right"@[7] == 'r');
    assert("border_up_size"@.len() == 14 && "border_up_size"@[0] == 'b' && "border_up_size"@[7] == 'u');
    assert("border_down_size"@.len() == 16 && "border_down_size"@[0] == 'b' && "border_down_size"@[7] == 'd');
    assert("border_left_size"@.len() == 16 && "border_left_size"@[0] == 'b' && "border_left_size"@[7] == 'l');
    assert("border_right_size"@.len() == 17 && "border_right_size"@[0] == 'b' && "border_right_size"@[7] == 'r');
    assert("border_color"@.len() == 12 && "border_color"@[0] == 'b' && "border_color"@[7] == 'c');
    assert("show_window_name"@.len() == 16 && "show_window_name"@[0] == 's' && "show_window_name"@[7] == 'n');
    assert("window_name_position"@.len() == 20 && "window_name_position"@[0] == 'w' && "window_name_position"@[7] == 'n');
    assert("display_name"@.len() == 12 && "display_name"@[0] == 'd' && "display_name"@[7] == '_');
    assert("gap_top"@.len() == 7 && "gap_top"@[0] == 'g');
    assert("gap_bottom"@.len() == 10 && "gap_bottom"@[0] == 'g' && "gap_bottom"@[7] == 't');
    assert("gap_left"@.len() == 8 && "gap_left"@[0] == 'g' && "gap_left"@[7] == 't');
    assert("gap_right"@.len() == 9 && "gap_right"@[0] == 'g' && "gap_right"@[7] == 'h');
    assert("gap_top_size"@.len() == 12 && "gap_top_size"@[0] == 'g' && "gap_top_size"@[7] == '_');
    assert("gap_bottom_size"@.len() == 15 && "gap_bottom_size"@[0] == 'g' && "gap_bottom_size"@[7] == 't');
    assert("gap_left_size"@.len() == 13 && "gap_left_size"@[0] == 'g' && "gap_left_size"@[7] == 't');
    assert("gap_right_size"@.len() == 14 && "gap_right_size"@[0] == 'g' && "gap_right_size"@[7] == 'h');
    lemma_option_u32_bound(value);
    let o2 = options_add(o, "border_down"@, value)->Ok_0;
    assert forall|n2: Seq<char>| n2 != "border_down"@ implies #[trigger] option_word(o2, n2) == option_word(o, n2) by {}
}

#[verifier::rlimit(50)]
proof fn lemma_set_border_left(o: OptionsModel, value: Seq<char>)
    requires
        options_add(o, "border_left"@, value) is Ok,
    ensures
        forall|n2: Seq<char>| n2 != "border_left"@ ==> #[trigger] option_word(options_add(o, "border_left"@, value)->Ok_0, n2) == option_word(o, n2),
        option_word(options_add(o, "border_left"@, value)->Ok_0, "border_left"@) == Some(bool_word(option_bool(value)->Some_0)),
{
    reveal_strlit("border_up");
    reveal_strlit("border_down");
    reveal_strlit("border_left");
    reveal_strlit("border_right");
    reveal_strlit("border_up_size");
    reveal_strlit("border_down_size");
    reveal_strlit("border_left_size");
    reveal_strlit("border_right_size");
    reveal_strlit("border_color");
    reveal_strlit("show_window_name");
    reveal_strlit("window_name_position");
    reveal_strlit("display_name");
    reveal_strlit("gap_top");
    reveal_strlit("gap_bottom");
    reveal_strlit("gap_left");
    reveal_strlit("gap_right");
    reveal_strlit("gap_top_size");
    reveal_strlit("gap_bottom_size");
    reveal_strlit("gap_left_size");
    reveal_strlit("gap_right_size");
    assert("border_right"@[7] == 'r' && "border_color"@[7] == 'c' && "display_name"@[0] == 'd' && "gap_top_size"@[0] == 'g');
    assert("border_right"@[0] == 'b' && "border_color"@[0] == 'b');
    assert("show_window_name"@[0] == 's' && "border_down_size"@[0] == 'b' && "border_left_size"@[0] == 'b');
    assert("gap_bottom_size"@[0] == 'g' && "border_left"@[0] == 'b' && "border_down"@[0] == 'b');
    assert("border_up"@.len() == 9 && "border_up"@[0] == 'b' && "border_up"@[7] == 'u');
    assert("border_down"@.len() == 11 && "border_down"@[0] == 'b' && "border_down"@[7] == 'd');
    assert("border_left"@.len() == 11 && "border_left"@[0] == 'b' && "border_left"@[7] == 'l');
    assert("border_right"@.len() == 12 && "border_right"@[0] == 'b' && "border_right"@[7] == 'r');
    assert("border_up_size"@.len() == 14 && "border_up_size"@[0] == 'b' && "border_up_size"@[7] == 'u');
    assert("border_down_size"@.len() == 16 && "border_down_size"@[0] == 'b' && "border_down_size"@[7] == 'd');
    assert("border_left_size"@.len() == 16 && "border_left_size"@[0] == 'b' && "border_left_size"@[7] == 'l');
    assert("border_right_size"@.len() == 17 && "border_right_size"@[0] == 'b' && "border_right_size"@[7] == 'r');
    assert("border_color"@.len() == 12 && "border_color"@[0] == 'b' && "border_color"@[7] == 'c');
    assert("show_window_name"@.len() == 16 && "show_window_name"@[0] == 's' && "show_window_name"@[7] == 'n');
    assert("window_name_position"@.len() == 20 && "window_name_position"@[0] == 'w' && "window_name_position"@[7] == 'n');
    assert("display_name"@.len() == 12 && "display_name"@[0] == 'd' && "display_name"@[7] == '_');
    assert("gap_top"@.len() == 7 && "gap_top"@[0] == 'g');
    assert("gap_bottom"@.len() == 10 && "gap_bottom"@[0] == 'g' && "gap_bottom"@[7] == 't');
    assert("gap_left"@.len() == 8 && "gap_left"@[0] == 'g' && "gap_left"@[7] == 't');
    assert("gap_right"@.len() == 9 && "gap_right"@[0] == 'g' && "gap_right"@[7] == 'h');
    assert("gap_top_size"@.len() == 12 && "gap_top_size"@[0] == 'g' && "gap_top_size"@[7] == '_');
    assert("gap_bottom_size"@.len() == 15 && "gap_bottom_size"@[0] == 'g' && "gap_bottom_size"@[7] == 't');
    assert("gap_left_size"@.len() == 13 && "gap_left_size"@[0] == 'g' && "gap_left_size"@[7] == 't');
    assert("gap_right_size"@.len() == 14 && "gap_right_size"@[0] == 'g' && "gap_right_size"@[7] == 'h');
    lemma_option_u32_bound(value);
    let o2 = options_add(o, "border_left"@, value)->Ok_0;
    assert forall|n2: Seq<char>| n2 != "border_left"@ implies #[trigger] option_word(o2, n2) == option_word(o, n2) by {}
}

#[verifier::rlimit(50)]
proof fn lemma_set_border_right(o: OptionsModel, value: Seq<char>)
    requires
        options_add(o, "border_right"@, value) is Ok,
    ensures
        forall|n2: Seq<char>| n2 != "border_right"@ ==> #[trigger] option_word(options_add(o, "border_right"@, value)->Ok_0, n2) == option_word(o, n2),
        option_word(options_add(o, "border_right"@, value)->Ok_0, "border_right"@) == Some(bool_word(option_bool(value)->Some_0)),
{
    reveal_strlit("border_up");
    reveal_strlit("border_down");
    reveal_strlit("border_left");
    reveal_strlit("border_right");
    reveal_strlit("border_up_size");
    reveal_strlit("border_down_size");
    reveal_strlit("border_left_size");
    reveal_strlit("border_right_size");
    reveal_strlit("border_color");
    reveal_strlit("show_window_name");
    reveal_strlit("window_name_position");
    reveal_strlit("display_name");
    reveal_strlit("gap_top");
    reveal_strlit("gap_bottom");
    reveal_strlit("gap_left");
    reveal_strlit("gap_right");
    reveal_strlit("gap_top_size");
    reveal_strlit("gap_bottom_size");
    reveal_strlit("gap_left_size");
    reveal_strlit("gap_right_size");
    assert("border_right"@[7] == 'r' && "border_color"@[7] == 'c' && "display_name"@[0] == 'd' && "gap_top_size"@[0] == 'g');
    assert("border_right"@[0] == 'b' && "border_color"@[0] == 'b');
    assert("show_window_name"@[0] == 's' && "border_down_size"@[0] == 'b' && "border_left_size"@[0] == 'b');
    assert("gap_bottom_size"@[0] == 'g' && "border_left"@[0] == 'b' && "border_down"@[0] == 'b');
    assert("border_up"@.len() == 9 && "border_up"@[0] == 'b' && "border_up"@[7] == 'u');
    assert("border_down"@.len() == 11 && "border_down"@[0] == 'b' && "border_down"@[7] == 'd');
    assert("border_left"@.len() == 11 && "border_left"@[0] == 'b' && "border_left"@[7] == 'l');
    assert("border_right"@.len() == 12 && "border_right"@[0] == 'b' && "border_right"@[7] == 'r');
    assert("border_up_size"@.len() == 14 && "border_up_size"@[0] == 'b' && "border_up_size"@[7] == 'u');
    assert("border_down_size"@.len() == 16 && "border_down_size"@[0] == 'b' && "border_down_size"@[7] == 'd');
    assert("border_left_size"@.len() == 16 && "border_left_size"@[0] == 'b' && "border_left_size"@[7] == 'l');
    assert("border_right_size"@.len() == 17 && "border_right_size"@[0] == 'b' && "border_right_size"@[7] == 'r');
    assert("border_color"@.len() == 12 && "border_color"@[0] == 'b' && "border_color"@[7] == 'c');
    assert("show_window_name"@.len() == 16 && "show_window_name"@[0] == 's' && "show_window_name"@[7] == 'n');
    assert("window_name_position"@.len() == 20 && "window_name_position"@[0] == 'w' && "window_name_position"@[7] == 'n');
    assert("display_name"@.len() == 12 && "display_name"@[0] == 'd' && "display_name"@[7] == '_');
    assert("gap_top"@.len() == 7 && "gap_top"@[0] == 'g');
    assert("gap_bottom"@.len() == 10 && "gap_bottom"@[0] == 'g' && "gap_bottom"@[7] == 't');
    assert("gap_left"@.len() == 8 && "gap_left"@[0] == 'g' && "gap_left"@[7] == 't');
    assert("gap_right"@.len() == 9 && "gap_right"@[0] == 'g' && "gap_right"@[7] == 'h');
    assert("gap_top_size"@.len() == 12 && "gap_top_size"@[0] == 'g' && "gap_top_size"@[7] == '_');
    assert("gap_bottom_size"@.len() == 15 && "gap_bottom_size"@[0] == 'g' && "gap_bottom_size"@[7] == 't');
    assert("gap_left_size"@.len() == 13 && "gap_left_size"@[0] == 'g' && "gap_left_size"@[7] == 't');
    assert("gap_right_size"@.len() == 14 && "gap_right_size"@[0] == 'g' && "gap_right_size"@[7] == 'h');
    lemma_option_u32_bound(value);
    let o2 = options_add(o, "border_right"@, value)->Ok_0;
    assert forall|n2: Seq<char>| n2 != "border_right"@ implies #[trigger] option_word(o2, n2) == option_word(o, n2) by {}
}

#[verifier::rlimit(50)]
proof fn lemma_set_border_up_size(o: OptionsModel, value: Seq<char>)
    requires
        options_add(o, "border_up_size"@, value) is Ok,
    ensures
        forall|n2: Seq<char>| n2 != "border_up_size"@ ==> #[trigger] option_word(options_add(o, "border_up_size"@, value)->Ok_0, n2) == option_word(o, n2),
        option_word(options_add(o, "border_up_size"@, value)->Ok_0, "border_up_size"@) == Some(decimal(option_u32(value)->Ok_0)),
{
    reveal_strlit("border_up");
    reveal_strlit("border_down");
    reveal_strlit("border_left");
    reveal_strlit("border_right");
    reveal_strlit("border_up_size");
    reveal_strlit("border_down_size");
    reveal_strlit("border_left_size");
    reveal_strlit("border_right_size");
    reveal_strlit("border_color");
    reveal_strlit("show_window_name");
    reveal_strlit("window_name_position");
    reveal_strlit("display_name");
    reveal_strlit("gap_top");
    reveal_strlit("gap_bottom");
    reveal_strlit("gap_left");
    reveal_strlit("gap_right");
    reveal_strlit("gap_top_size");
    reveal_strlit("gap_bottom_size");
    reveal_strlit("gap_left_size");
    reveal_strlit("gap_right_size");
    assert("border_right"@[7] == 'r' && "border_color"@[7] == 'c' && "display_name"@[0] == 'd' && "gap_top_size"@[0] == 'g');
    assert("border_right"@[0] == 'b' && "border_color"@[0] == 'b');
    assert("show_window_name"@[0] == 's' && "border_down_size"@[0] == 'b' && "border_left_size"@[0] == 'b');
    assert("gap_bottom_size"@[0] == 'g' && "border_left"@[0] == 'b' && "border_down"@[0] == 'b');
    assert("border_up"@.len() == 9 && "border_up"@[0] == 'b' && "border_up"@[7] == 'u');
    assert("border_down"@.len() == 11 && "border_down"@[0] == 'b' && "border_down"@[7] == 'd');
    assert("border_left"@.len() == 11 && "border_left"@[0] == 'b' && "border_left"@[7] == 'l');
    assert("border_right"@.len() == 12 && "border_right"@[0] == 'b' && "border_right"@[7] == 'r');
    assert("border_up_size"@.len() == 14 && "border_up_size"@[0] == 'b' && "border_up_size"@[7] == 'u');
    assert("border_down_size"@.len() == 16 && "border_down_size"@[0] == 'b' && "border_down_size"@[7] == 'd');
    assert("border_left_size"@.len() == 16 && "border_left_size"@[0] == 'b' && "border_left_size"@[7] == 'l');
    assert("border_right_size"@.len() == 17 && "border_right_size"@[0] == 'b' && "border_right_size"@[7] == 'r');
    assert("border_color"@.len() == 12 && "border_color"@[0] == 'b' && "border_color"@[7] == 'c');
    assert("show_window_name"@.len() == 16 && "show_window_name"@[0] == 's' && "show_window_name"@[7] == 'n');
    assert("window_name_position"@.len() == 20 && "window_name_position"@[0] == 'w' && "window_name_position"@[7] == 'n');
    assert("display_name"@.len() == 12 && "display_name"@[0] == 'd' && "display_name"@[7] == '_');
    assert("gap_top"@.len() == 7 && "gap_top"@[0] == 'g');
    assert("gap_bottom"@.len() == 10 && "gap_bottom"@[0] == 'g' && "gap_bottom"@[7] == 't');
    assert("gap_left"@.len() == 8 && "gap_left"@[0] == 'g' && "gap_left"@[7] == 't');
    assert("gap_right"@.len() == 9 && "gap_right"@[0] == 'g' && "gap_right"@[7] == 'h');
    assert("gap_top_size"@.len() == 12 && "gap_top_size"@[0] == 'g' && "gap_top_size"@[7] == '_');
    assert("gap_bottom_size"@.len() == 15 && "gap_bottom_size"@[0] == 'g' && "gap_bottom_size"@[7] == 't');
    assert("gap_left_size"@.len() == 13 && "gap_left_size"@[0] == 'g' && "gap_left_size"@[7] == 't');
    assert("gap_right_size"@.len() == 14 && "gap_right_size"@[0] == 'g' && "gap_right_size"@[7] == 'h');
    lemma_option_u32_bound(value);
    let o2 = options_add(o, "border_up_size"@, value)->Ok_0;
    assert forall|n2: Seq<char>| n2 != "border_up_size"@ implies #[trigger] option_word(o2, n2) == option_word(o, n2) by {}
}

#[verifier::rlimit(50)]
proof fn lemma_set_border_down_size(o: OptionsModel, value: Seq<char>)
    requires
        options_add(o, "border_down_size"@, value) is Ok,
    ensures
        forall|n2: Seq<char>| n2 != "border_down_size"@ ==> #[trigger] option_word(options_add(o, "border_down_size"@, value)->Ok_0, n2) == option_word(o, n2),
        option_word(options_add(o, "border_down_size"@, value)->Ok_0, "border_down_size"@) == Some(decimal(option_u32(value)->Ok_0)),
{
    reveal_strlit("border_up");
    reveal_strlit("border_down");
    reveal_strlit("border_left");
    reveal_strlit("border_right");
    reveal_strlit("border_up_size");
    reveal_strlit("border_down_size");
    reveal_strlit("border_left_size");
    reveal_strlit("border_right_size");
    reveal_strlit("border_color");
    reveal_strlit("show_window_name");
    reveal_strlit("window_name_position");
    reveal_strlit("display_name");
    reveal_strlit("gap_top");
    reveal_strlit("gap_bottom");
    reveal_strlit("gap_left");
    reveal_strlit("gap_right");
    reveal_strlit("gap_top_size");
    reveal_strlit("gap_bottom_size");
    reveal_strlit("gap_left_size");
    reveal_strlit("gap_right_size");
    assert("border_right"@[7] == 'r' && "border_color"@[7] == 'c' && "display_name"@[0] == 'd' && "gap_top_size"@[0] == 'g');
    assert("border_right"@[0] == 'b' && "border_color"@[0] == 'b');
    assert("show_window_name"@[0] == 's' && "border_down_size"@[0] == 'b' && "border_left_size"@[0] == 'b');
    assert("gap_bottom_size"@[0] == 'g' && "border_left"@[0] == 'b' && "border_down"@[0] == 'b');
    assert("border_up"@.len() == 9 && "border_up"@[0] == 'b' && "border_up"@[7] == 'u');
    assert("border_down"@.len() == 11 && "border_down"@[0] == 'b' && "border_down"@[7] == 'd');
    assert("border_left"@.len() == 11 && "border_left"@[0] == 'b' && "border_left"@[7] == 'l');
    assert("border_right"@.len() == 12 && "border_right"@[0] == 'b' && "border_right"@[7] == 'r');
    assert("border_up_size"@.len() == 14 && "border_up_size"@[0] == 'b' && "border_up_size"@[7] == 'u');
    assert("border_down_size"@.len() == 16 && "border_down_size"@[0] == 'b' && "border_down_size"@[7] == 'd');
    assert("border_left_size"@.len() == 16 && "border_left_size"@[0] == 'b' && "border_left_size"@[7] == 'l');
    assert("border_right_size"@.len() == 17 && "border_right_size"@[0] == 'b' && "border_right_size"@[7] == 'r');
    assert("border_color"@.len() == 12 && "border_color"@[0] == 'b' && "border_color"@[7] == 'c');
    assert("show_window_name"@.len() == 16 && "show_window_name"@[0] == 's' && "show_window_name"@[7] == 'n');
    assert("window_name_position"@.len() == 20 && "window_name_position"@[0] == 'w' && "window_name_position"@[7] == 'n');
    assert("display_name"@.len() == 12 && "display_name"@[0] == 'd' && "display_name"@[7] == '_');
    assert("gap_top"@.len() == 7 && "gap_top"@[0] == 'g');
    assert("gap_bottom"@.len() == 10 && "gap_bottom"@[0] == 'g' && "gap_bottom"@[7] == 't');
    assert("gap_left"@.len() == 8 && "gap_left"@[0] == 'g' && "gap_left"@[7] == 't');
    assert("gap_right"@.len() == 9 && "gap_right"@[0] == 'g' && "gap_right"@[7] == 'h');
    assert("gap_top_size"@.len() == 12 && "gap_top_size"@[0] == 'g' && "gap_top_size"@[7] == '_');
    assert("gap_bottom_size"@.len() == 15 && "gap_bottom_size"@[0] == 'g' && "gap_bottom_size"@[7] == 't');
    assert("gap_left_size"@.len() == 13 && "gap_left_size"@[0] == 'g' && "gap_left_size"@[7] == 't');
    assert("gap_right_size"@.len() == 14 && "gap_right_size"@[0] == 'g' && "gap_right_size"@[7] == 'h');
    lemma_option_u32_bound(value);
    let o2 = options_add(o, "border_down_size"@, value)->Ok_0;
    assert forall|n2: Seq<char>| n2 != "border_down_size"@ implies #[trigger] option_word(o2, n2) == option_word(o, n2) by {}
}

#[verifier::rlimit(50)]
proof fn lemma_set_border_left_size(o: OptionsModel, value: Seq<char>)
    requires
        options_add(o, "border_left_size"@, value) is Ok,
    ensures
        forall|n2: Seq<char>| n2 != "border_left_size"@ ==> #[trigger] option_word(options_add(o, "border_left_size"@, value)->Ok_0, n2) == option_word(o, n2),
        option_word(options_add(o, "border_left_size"@, value)->Ok_0, "border_left_size"@) == Some(decimal(option_u32(value)->Ok_0)),
{
    reveal_strlit("border_up");
    reveal_strlit("border_down");
    reveal_strlit("border_left");
    reveal_strlit("border_right");
    reveal_strlit("border_up_size");
    reveal_strlit("border_down_size");
    reveal_strlit("border_left_size");
    reveal_strlit("border_right_size");
    reveal_strlit("border_color");
    reveal_strlit("show_window_name");
    reveal_strlit("window_name_position");
    reveal_strlit("display_name");
    reveal_strlit("gap_top");
    reveal_strlit("gap_bottom");
    reveal_strlit("gap_left");
    reveal_strlit("gap_right");
    reveal_strlit("gap_top_size");
    reveal_strlit("gap_bottom_size");
    reveal_strlit("gap_left_size");
    reveal_strlit("gap_right_size");
    assert("border_right"@[7] == 'r' && "border_color"@[7] == 'c' && "display_name"@[0] == 'd' && "gap_top_size"@[0] == 'g');
    assert("border_right"@[0] == 'b' && "border_color"@[0] == 'b');
    assert("show_window_name"@[0] == 's' && "border_down_size"@[0] == 'b' && "border_left_size"@[0] == 'b');
    assert("gap_bottom_size"@[0] == 'g' && "border_left"@[0] == 'b' && "border_down"@[0] == 'b');
    assert("border_up"@.len() == 9 && "border_up"@[0] == 'b' && "border_up"@[7] == 'u');
    assert("border_down"@.len() == 11 && "border_down"@[0] == 'b' && "border_down"@[7] == 'd');
    assert("border_left"@.len() == 11 && "border_left"@[0] == 'b' && "border_left"@[7] == 'l');
    assert("border_right"@.len() == 12 && "border_right"@[0] == 'b' && "border_right"@[7] == 'r');
    assert("border_up_size"@.len() == 14 && "border_up_size"@[0] == 'b' && "border_up_size"@[7] == 'u');
    assert("border_down_size"@.len() == 16 && "border_down_size"@[0] == 'b' && "border_down_size"@[7] == 'd');
    assert("border_left_size"@.len() == 16 && "border_left_size"@[0] == 'b' && "border_left_size"@[7] == 'l');
    assert("border_right_size"@.len() == 17 && "border_right_size"@[0] == 'b' && "border_right_size"@[7] == 'r');
    assert("border_color"@.len() == 12 && "border_color"@[0] == 'b' && "border_color"@[7] == 'c');
    assert("show_window_name"@.len() == 16 && "show_window_name"@[0] == 's' && "show_window_name"@[7] == 'n');
    assert("window_name_position"@.len() == 20 && "window_name_position"@[0] == 'w' && "window_name_position"@[7] == 'n');
    assert("display_name"@.len() == 12 && "display_name"@[0] == 'd' && "display_name"@[7] == '_');
    assert("gap_top"@.len() == 7 && "gap_top"@[0] == 'g');
    assert("gap_bottom"@.len() == 10 && "gap_bottom"@[0] == 'g' && "gap_bottom"@[7] == 't');
    assert("gap_left"@.len() == 8 && "gap_left"@[0] == 'g' && "gap_left"@[7] == 't');
    assert("gap_right"@.len() == 9 && "gap_right"@[0] == 'g' && "gap_right"@[7] == 'h');
    assert("gap_top_size"@.len() == 12 && "gap_top_size"@[0] == 'g' && "gap_top_size"@[7] == '_');
    assert("gap_bottom_size"@.len() == 15 && "gap_bottom_size"@[0] == 'g' && "gap_bottom_size"@[7] == 't');
    assert("gap_left_size"@.len() == 13 && "gap_left_size"@[0] == 'g' && "gap_left_size"@[7] == 't');
    assert("gap_right_size"@.len() == 14 && "gap_right_size"@[0] == 'g' && "gap_right_size"@[7] == 'h');
    lemma_option_u32_bound(value);
    let o2 = options_add(o, "border_left_size"@, value)->Ok_0;
    assert forall|n2: Seq<char>| n2 != "border_left_size"@ implies #[trigger] option_word(o2, n2) == option_word(o, n2) by {}
}

#[verifier::rlimit(50)]
proof fn lemma_set_border_right_size(o: OptionsModel, value: Seq<char>)
    requires
        options_add(o, "border_right_size"@, value) is Ok,
    ensures
        forall|n2: Seq<char>| n2 != "border_right_size"@ ==> #[trigger] option_word(options_add(o, "border_right_size"@, value)->Ok_0, n2) == option_word(o, n2),
        option_word(options_add(o, "border_right_size"@, value)->Ok_0, "border_right_size"@) == Some(decimal(option_u32(value)->Ok_0)),
{
    reveal_strlit("border_up");
    reveal_strlit("border_down");
    reveal_strlit("border_left");
    reveal_strlit("border_right");
    reveal_strlit("border_up_size");
    reveal_strlit("border_down_size");
    reveal_strlit("border_left_size");
    reveal_strlit("border_right_size");
    reveal_strlit("border_color");
    reveal_strlit("show_window_name");
    reveal_strlit("window_name_position");
    reveal_strlit("display_name");
    reveal_strlit("gap_top");
    reveal_strlit("gap_bottom");
    reveal_strlit("gap_left");
    reveal_strlit("gap_right");
    reveal_strlit("gap_top_size");
    reveal_strlit("gap_bottom_size");
    reveal_strlit("gap_left_size");
    reveal_strlit("gap_right_size");
    assert("border_right"@[7] == 'r' && "border_color"@[7] == 'c' && "display_name"@[0] == 'd' && "gap_top_size"@[0] == 'g');
    assert("border_right"@[0] == 'b' && "border_color"@[0] == 'b');
    assert("show_window_name"@[0] == 's' && "border_down_size"@[0] == 'b' && "border_left_size"@[0] == 'b');
    assert("gap_bottom_size"@[0] == 'g' && "border_left"@[0] == 'b' && "border_down"@[0] == 'b');
    assert("border_up"@.len() == 9 && "border_up"@[0] == 'b' && "border_up"@[7] == 'u');
    assert("border_down"@.len() == 11 && "border_down"@[0] == 'b' && "border_down"@[7] == 'd');
    assert("border_left"@.len() == 11 && "border_left"@[0] == 'b' && "border_left"@[7] == 'l');
    assert("border_right"@.len() == 12 && "border_right"@[0] == 'b' && "border_right"@[7] == 'r');
    assert("border_up_size"@.len() == 14 && "border_up_size"@[0] == 'b' && "border_up_size"@[7] == 'u');
    assert("border_down_size"@.len() == 16 && "border_down_size"@[0] == 'b' && "border_down_size"@[7] == 'd');
    assert("border_left_size"@.len() == 16 && "border_left_size"@[0] == 'b' && "border_left_size"@[7] == 'l');
    assert("border_right_size"@.len() == 17 && "border_right_size"@[0] == 'b' && "border_right_size"@[7] == 'r');
    assert("border_color"@.len() == 12 && "border_color"@[0] == 'b' && "border_color"@[7] == 'c');
    assert("show_window_name"@.len() == 16 && "show_window_name"@[0] == 's' && "show_window_name"@[7] == 'n');
    assert("window_name_position"@.len() == 20 && "window_name_position"@[0] == 'w' && "window_name_position"@[7] == 'n');
    assert("display_name"@.len() == 12 && "display_name"@[0] == 'd' && "display_name"@[7] == '_');
    assert("gap_top"@.len() == 7 && "gap_top"@[0] == 'g');
    assert("gap_bottom"@.len() == 10 && "gap_bottom"@[0] == 'g' && "gap_bottom"@[7] == 't');
    assert("gap_left"@.len() == 8 && "gap_left"@[0] == 'g' && "gap_left"@[7] == 't');
    assert("gap_right"@.len() == 9 && "gap_right"@[0] == 'g' && "gap_right"@[7] == 'h');
    assert("gap_top_size"@.len() == 12 && "gap_top_size"@[0] == 'g' && "gap_top_size"@[7] == '_');
    assert("gap_bottom_size"@.len() == 15 && "gap_bottom_size"@[0] == 'g' && "gap_bottom_size"@[7] == 't');
    assert("gap_left_size"@.len() == 13 && "gap_left_size"@[0] == 'g' && "gap_left_size"@[7] == 't');
    assert("gap_right_size"@.len() == 14 && "gap_right_size"@[0] == 'g' && "gap_right_size"@[7] == 'h');
    lemma_option_u32_bound(value);
    let o2 = options_add(o, "border_right_size"@, value)->Ok_0;
    assert forall|n2: Seq<char>| n2 != "border_right_size"@ implies #[trigger] option_word(o2, n2) == option_word(o, n2) by {}
}

#[verifier::rlimit(50)]
proof fn lemma_set_border_color(o: OptionsModel, value: Seq<char>)
    requires
        options_add(o, "border_color"@, value) is Ok,
    ensures
        forall|n2: Seq<char>| n2 != "border_color"@ ==> #[trigger] option_word(options_add(o, "border_color"@, value)->Ok_0, n2) == option_word(o, n2),
        option_word(options_add(o, "border_color"@, value)->Ok_0, "border_color"@) == Some(if is_color_setting(value) { value } else { o.border_color }),
{
    reveal_strlit("border_up");
    reveal_strlit("border_down");
    reveal_strlit("border_left");
    reveal_strlit("border_right");
    reveal_strlit("border_up_size");
    reveal_strlit("border_down_size");
    reveal_strlit("border_left_size");
    reveal_strlit("border_right_size");
    reveal_strlit("border_color");
    reveal_strlit("show_window_name");
    reveal_strlit("window_name_position");
    reveal_strlit("display_name");
    reveal_strlit("gap_top");
    reveal_strlit("gap_bottom");
    reveal_strlit("gap_left");
    reveal_strlit("gap_right");
    reveal_strlit("gap_top_size");
    reveal_strlit("gap_bottom_size");
    reveal_strlit("gap_left_size");
    reveal_strlit("gap_right_size");
    assert("border_right"@[7] == 'r' && "border_color"@[7] == 'c' && "display_name"@[0] == 'd' && "gap_top_size"@[0] == 'g');
    assert("border_right"@[0] == 'b' && "border_color"@[0] == 'b');
    assert("show_window_name"@[0] == 's' && "border_down_size"@[0] == 'b' && "border_left_size"@[0] == 'b');
    assert("gap_bottom_size"@[0] == 'g' && "border_left"@[0] == 'b' && "border_down"@[0] == 'b');
    assert("border_up"@.len() == 9 && "border_up"@[0] == 'b' && "border_up"@[7] == 'u');
    assert("border_down"@.len() == 11 && "border_down"@[0] == 'b' && "border_down"@[7] == 'd');
    assert("border_left"@.len() == 11 && "border_left"@[0] == 'b' && "border_left"@[7] == 'l');
    assert("border_right"@.len() == 12 && "border_right"@[0] == 'b' && "border_right"@[7] == 'r');
    assert("border_up_size"@.len() == 14 && "border_up_size"@[0] == 'b' && "border_up_size"@[7] == 'u');
    assert("border_down_size"@.len() == 16 && "border_down_size"@[0] == 'b' && "border_down_size"@[7] == 'd');
    assert("border_left_size"@.len() == 16 && "border_left_size"@[0] == 'b' && "border_left_size"@[7] == 'l');
    assert("border_right_size"@.len() == 17 && "border_right_size"@[0] == 'b' && "border_right_size"@[7] == 'r');
    assert("border_color"@.len() == 12 && "border_color"@[0] == 'b' && "border_color"@[7] == 'c');
    assert("show_window_name"@.len() == 16 && "show_window_name"@[0] == 's' && "show_window_name"@[7] == 'n');
    assert("window_name_position"@.len() == 20 && "window_name_position"@[0] == 'w' && "window_name_position"@[7] == 'n');
    assert("display_name"@.len() == 12 && "display_name"@[0] == 'd' && "display_name"@[7] == '_');
    assert("gap_top"@.len() == 7 && "gap_top"@[0] == 'g');
    assert("gap_bottom"@.len() == 10 && "gap_bottom"@[0] == 'g' && "gap_bottom"@[7] == 't');
    assert("gap_left"@.len() == 8 && "gap_left"@[0] == 'g' && "gap_left"@[7] == 't');
    assert("gap_right"@.len() == 9 && "gap_right"@[0] == 'g' && "gap_right"@[7] == 'h');
    assert("gap_top_size"@.len() == 12 && "gap_top_size"@[0] == 'g' && "gap_top_size"@[7] == '_');
    assert("gap_bottom_size"@.len() == 15 && "gap_bottom_size"@[0] == 'g' && "gap_bottom_size"@[7] == 't');
    assert("gap_left_size"@.len() == 13 && "gap_left_size"@[0] == 'g' && "gap_left_size"@[7] == 't');
    assert("gap_right_size"@.len() == 14 && "gap_right_size"@[0] == 'g' && "gap_right_size"@[7] == 'h');
    lemma_option_u32_bound(value);
    let o2 = options_add(o, "border_color"@, value)->Ok_0;
    assert forall|n2: Seq<char>| n2 != "border_color"@ implies #[trigger] option_word(o2, n2) == option_word(o, n2) by {}
}

#[verifier::rlimit(50)]
proof fn lemma_set_show_window_name(o: OptionsModel, value: Seq<char>)
    requires
        options_add(o, "show_window_name"@, value) is Ok,
    ensures
        forall|n2: Seq<char>| n2 != "show_window_name"@ ==> #[trigger] option_word(options_add(o, "show_window_name"@, value)->Ok_0, n2) == option_word(o, n2),
        option_word(options_add(o, "show_window_name"@, value)->Ok_0, "show_window_name"@) == Some(bool_word(option_bool(value)->Some_0)),
{
    reveal_strlit("border_up");
    reveal_strlit("border_down");
    reveal_strlit("border_left");
    reveal_strlit("border_right");
    reveal_strlit("border_up_size");
    reveal_strlit("border_down_size");
    reveal_strlit("border_left_size");
    reveal_strlit("border_right_size");
    reveal_strlit("border_color");
    reveal_strlit("show_window_name");
    reveal_strlit("window_name_position");
    reveal_strlit("display_name");
    reveal_strlit("gap_top");
    reveal_strlit("gap_bottom");
    reveal_strlit("gap_left");
    reveal_strlit("gap_right");
    reveal_strlit("gap_top_size");
    reveal_strlit("gap_bottom_size");
    reveal_strlit("gap_left_size");
    reveal_strlit("gap_right_size");
    assert("border_right"@[7] == 'r' && "border_color"@[7] == 'c' && "display_name"@[0] == 'd' && "gap_top_size"@[0] == 'g');
    assert("border_right"@[0] == 'b' && "border_color"@[0] == 'b');
    assert("show_window_name"@[0] == 's' && "border_down_size"@[0] == 'b' && "border_left_size"@[0] == 'b');
    assert("gap_bottom_size"@[0] == 'g' && "border_left"@[0] == 'b' && "border_down"@[0] == 'b');
    assert("border_up"@.len() == 9 && "border_up"@[0] == 'b' && "border_up"@[7] == 'u');
    assert("border_down"@.len() == 11 && "border_down"@[0] == 'b' && "border_down"@[7] == 'd');
    assert("border_left"@.len() == 11 && "border_left"@[0] == 'b' && "border_left"@[7] == 'l');
    assert("border_right"@.len() == 12 && "border_right"@[0] == 'b' && "border_right"@[7] == 'r');
    assert("border_up_size"@.len() == 14 && "border_up_size"@[0] == 'b' && "border_up_size"@[7] == 'u');
    assert("border_down_size"@.len() == 16 && "border_down_size"@[0] == 'b' && "border_down_size"@[7] == 'd');
    assert("border_left_size"@.len() == 16 && "border_left_size"@[0] == 'b' && "border_left_size"@[7] == 'l');
    assert("border_right_size"@.len() == 17 && "border_right_size"@[0] == 'b' && "border_right_size"@[7] == 'r');
    assert("border_color"@.len() == 12 && "border_color"@[0] == 'b' && "border_color"@[7] == 'c');
    assert("show_window_name"@.len() == 16 && "show_window_name"@[0] == 's' && "show_window_name"@[7] == 'n');
    assert("window_name_position"@.len() == 20 && "window_name_position"@[0] == 'w' && "window_name_position"@[7] == 'n');
    assert("display_name"@.len() == 12 && "display_name"@[0] == 'd' && "display_name"@[7] == '_');
    assert("gap_top"@.len() == 7 && "gap_top"@[0] == 'g');
    assert("gap_bottom"@.len() == 10 && "gap_bottom"@[0] == 'g' && "gap_bottom"@[7] == 't');
    assert("gap_left"@.len() == 8 && "gap_left"@[0] == 'g' && "gap_left"@[7] == 't');
    assert("gap_right"@.len() == 9 && "gap_right"@[0] == 'g' && "gap_right"@[7] == 'h');
    assert("gap_top_size"@.len() == 12 && "gap_top_size"@[0] == 'g' && "gap_top_size"@[7] == '_');
    assert("gap_bottom_size"@.len() == 15 && "gap_bottom_size"@[0] == 'g' && "gap_bottom_size"@[7] == 't');
    assert("gap_left_size"@.len() == 13 && "gap_left_size"@[0] == 'g' && "gap_left_size"@[7] == 't');
    assert("gap_right_size"@.len() == 14 && "gap_right_size"@[0] == 'g' && "gap_right_size"@[7] == 'h');
    lemma_option_u32_bound(value);
    let o2 = options_add(o, "show_window_name"@, value)->Ok_0;
    assert forall|n2: Seq<char>| n2 != "show_window_name"@ implies #[trigger] option_word(o2, n2) == option_word(o, n2) by {}
}

#[verifier::rlimit(50)]
proof fn lemma_set_window_name_position(o: OptionsModel, value: Seq<char>)
    requires
        options_add(o, "window_name_position"@, value) is Ok,
    ensures
        forall|n2: Seq<char>| n2 != "window_name_position"@ ==> #[trigger] option_word(options_add(o, "window_name_position"@, value)->Ok_0, n2) == option_word(o, n2),
        option_word(options_add(o, "window_name_position"@, value)->Ok_0, "window_name_position"@) == Some(value),
{
    reveal_strlit("border_up");
    reveal_strlit("border_down");
    reveal_strlit("border_left");
    reveal_strlit("border_right");
    reveal_strlit("border_up_size");
    reveal_strlit("border_down_size");
    reveal_strlit("border_left_size");
    reveal_strlit("border_right_size");
    reveal_strlit("border_color");
    reveal_strlit("show_window_name");
    reveal_strlit("window_name_position");
    reveal_strlit("display_name");
    reveal_strlit("gap_top");
    reveal_strlit("gap_bottom");
    reveal_strlit("gap_left");
    reveal_strlit("gap_right");
    reveal_strlit("gap_top_size");
    reveal_strlit("gap_bottom_size");
    reveal_strlit("gap_left_size");
    reveal_strlit("gap_right_size");
    assert("border_right"@[7] == 'r' && "border_color"@[7] == 'c' && "display_name"@[0] == 'd' && "gap_top_size"@[0] == 'g');
    assert("border_right"@[0] == 'b' && "border_color"@[0] == 'b');
    assert("show_window_name"@[0] == 's' && "border_down_size"@[0] == 'b' && "border_left_size"@[0] == 'b');
    assert("gap_bottom_size"@[0] == 'g' && "border_left"@[0] == 'b' && "border_down"@[0] == 'b');
    assert("border_up"@.len() == 9 && "border_up"@[0] == 'b' && "border_up"@[7] == 'u');
    assert("border_down"@.len() == 11 && "border_down"@[0] == 'b' && "border_down"@[7] == 'd');
    assert("border_left"@.len() == 11 && "border_left"@[0] == 'b' && "border_left"@[7] == 'l');
    assert("border_right"@.len() == 12 && "border_right"@[0] == 'b' && "border_right"@[7] == 'r');
    assert("border_up_size"@.len() == 14 && "border_up_size"@[0] == 'b' && "border_up_size"@[7] == 'u');
    assert("border_down_size"@.len() == 16 && "border_down_size"@[0] == 'b' && "border_down_size"@[7] == 'd');
    assert("border_left_size"@.len() == 16 && "border_left_size"@[0] == 'b' && "border_left_size"@[7] == 'l');
    assert("border_right_size"@.len() == 17 && "border_right_size"@[0] == 'b' && "border_right_size"@[7] == 'r');
    assert("border_color"@.len() == 12 && "border_color"@[0] == 'b' && "border_color"@[7] == 'c');
    assert("show_window_name"@.len() == 16 && "show_window_name"@[0] == 's' && "show_window_name"@[7] == 'n');
    assert("window_name_position"@.len() == 20 && "window_name_position"@[0] == 'w' && "window_name_position"@[7] == 'n');
    assert("display_name"@.len() == 12 && "display_name"@[0] == 'd' && "display_name"@[7] == '_');
    assert("gap_top"@.len() == 7 && "gap_top"@[0] == 'g');
    assert("gap_bottom"@.len() == 10 && "gap_bottom"@[0] == 'g' && "gap_bottom"@[7] == 't');
    assert("gap_left"@.len() == 8 && "gap_left"@[0] == 'g' && "gap_left"@[7] == 't');
    assert("gap_right"@.len() == 9 && "gap_right"@[0] == 'g' && "gap_right"@[7] == 'h');
    assert("gap_top_size"@.len() == 12 && "gap_top_size"@[0] == 'g' && "gap_top_size"@[7] == '_');
    assert("gap_bottom_size"@.len() == 15 && "gap_bottom_size"@[0] == 'g' && "gap_bottom_size"@[7] == 't');
    assert("gap_left_size"@.len() == 13 && "gap_left_size"@[0] == 'g' && "gap_left_size"@[7] == 't');
    assert("gap_right_size"@.len() == 14 && "gap_right_size"@[0] == 'g' && "gap_right_size"@[7] == 'h');
    lemma_option_u32_bound(value);
    let o2 = options_add(o, "window_name_position"@, value)->Ok_0;
    assert forall|n2: Seq<char>| n2 != "window_name_position"@ implies #[trigger] option_word(o2, n2) == option_word(o, n2) by {}
}

#[verifier::rlimit(50)]
proof fn lemma_set_display_name(o: OptionsModel, value: Seq<char>)
    requires
        options_add(o, "display_name"@, value) is Ok,
    ensures
        forall|n2: Seq<char>| n2 != "display_name"@ ==> #[trigger] option_word(options_add(o, "display_name"@, value)->Ok_0, n2) == option_word(o, n2),
        option_word(options_add(o, "display_name"@, value)->Ok_0, "display_name"@) == Some(value),
{
    reveal_strlit("border_up");
    reveal_strlit("border_down");
    reveal_strlit("border_left");
    reveal_strlit("border_right");
    reveal_strlit("border_up_size");
    reveal_strlit("border_down_size");
    reveal_strlit("border_left_size");
    reveal_strlit("border_right_size");
    reveal_strlit("border_color");
    reveal_strlit("show_window_name");
    reveal_strlit("window_name_position");
    reveal_strlit("display_name");
    reveal_strlit("gap_top");
    reveal_strlit("gap_bottom");
    reveal_strlit("gap_left");
    reveal_strlit("gap_right");
    reveal_strlit("gap_top_size");
    reveal_strlit("gap_bottom_size");
    reveal_strlit("gap_left_size");
    reveal_strlit("gap_right_size");
    assert("border_right"@[7] == 'r' && "border_color"@[7] == 'c' && "display_name"@[0] == 'd' && "gap_top_size"@[0] == 'g');
    assert("border_right"@[0] == 'b' && "border_color"@[0] == 'b');
    assert("show_window_name"@[0] == 's' && "border_down_size"@[0] == 'b' && "border_left_size"@[0] == 'b');
    assert("gap_bottom_size"@[0] == 'g' && "border_left"@[0] == 'b' && "border_down"@[0] == 'b');
    assert("border_up"@.len() == 9 && "border_up"@[0] == 'b' && "border_up"@[7] == 'u');
    assert("border_down"@.len() == 11 && "border_down"@[0] == 'b' && "border_down"@[7] == 'd');
    assert("border_left"@.len() == 11 && "border_left"@[0] == 'b' && "border_left"@[7] == 'l');
    assert("border_right"@.len() == 12 && "border_right"@[0] == 'b' && "border_right"@[7] == 'r');
    assert("border_up_size"@.len() == 14 && "border_up_size"@[0] == 'b' && "border_up_size"@[7] == 'u');
    assert("border_down_size"@.len() == 16 && "border_down_size"@[0] == 'b' && "border_down_size"@[7] == 'd');
    assert("border_left_size"@.len() == 16 && "border_left_size"@[0] == 'b' && "border_left_size"@[7] == 'l');
    assert("border_right_size"@.len() == 17 && "border_right_size"@[0] == 'b' && "border_right_size"@[7] == 'r');
    assert("border_color"@.len() == 12 && "border_color"@[0] == 'b' && "border_color"@[7] == 'c');
    assert("show_window_name"@.len() == 16 && "show_window_name"@[0] == 's' && "show_window_name"@[7] == 'n');
    assert("window_name_position"@.len() == 20 && "window_name_position"@[0] == 'w' && "window_name_position"@[7] == 'n');
    assert("display_name"@.len() == 12 && "display_name"@[0] == 'd' && "display_name"@[7] == '_');
    assert("gap_top"@.len() == 7 && "gap_top"@[0] == 'g');
    assert("gap_bottom"@.len() == 10 && "gap_bottom"@[0] == 'g' && "gap_bottom"@[7] == 't');
    assert("gap_left"@.len() == 8 && "gap_left"@[0] == 'g' && "gap_left"@[7] == 't');
    assert("gap_right"@.len() == 9 && "gap_right"@[0] == 'g' && "gap_right"@[7] == 'h');
    assert("gap_top_size"@.len() == 12 && "gap_top_size"@[0] == 'g' && "gap_top_size"@[7] == '_');
    assert("gap_bottom_size"@.len() == 15 && "gap_bottom_size"@[0] == 'g' && "gap_bottom_size"@[7] == 't');
    assert("gap_left_size"@.len() == 13 && "gap_left_size"@[0] == 'g' && "gap_left_size"@[7] == 't');
    assert("gap_right_size"@.len() == 14 && "gap_right_size"@[0] == 'g' && "gap_right_size"@[7] == 'h');
    lemma_option_u32_bound(value);
    let o2 = options_add(o, "display_name"@, value)->Ok_0;
    assert forall|n2: Seq<char>| n2 != "display_name"@ implies #[trigger] option_word(o2, n2) == option_word(o, n2) by {}
}

#[verifier::rlimit(50)]
proof fn lemma_set_gap_top(o: OptionsModel, value: Seq<char>)
    requires
        options_add(o, "gap_top"@, value) is Ok,
    ensures
        forall|n2: Seq<char>| n2 != "gap_top"@ ==> #[trigger] option_word(options_add(o, "gap_top"@, value)->Ok_0, n2) == option_word(o, n2),
        option_word(options_add(o, "gap_top"@, value)->Ok_0, "gap_top"@) == Some(bool_word(option_bool(value)->Some_0)),
{
    reveal_strlit("border_up");
    reveal_strlit("border_down");
    reveal_strlit("border_left");
    reveal_strlit("border_right");
    reveal_strlit("border_up_size");
    reveal_strlit("border_down_size");
    reveal_strlit("border_left_size");
    reveal_strlit("border_right_size");
    reveal_strlit("border_color");
    reveal_strlit("show_window_name");
    reveal_strlit("window_name_position");
    reveal_strlit("display_name");
    reveal_strlit("gap_top");
    reveal_strlit("gap_bottom");
    reveal_strlit("gap_left");
    reveal_strlit("gap_right");
    reveal_strlit("gap_top_size");
    reveal_strlit("gap_bottom_size");
    reveal_strlit("gap_left_size");
    reveal_strlit("gap_right_size");
    assert("border_right"@[7] == 'r' && "border_color"@[7] == 'c' && "display_name"@[0] == 'd' && "gap_top_size"@[0] == 'g');
    assert("border_right"@[0] == 'b' && "border_color"@[0] == 'b');
    assert("show_window_name"@[0] == 's' && "border_down_size"@[0] == 'b' && "border_left_size"@[0] == 'b');
    assert("gap_bottom_size"@[0] == 'g' && "border_left"@[0] == 'b' && "border_down"@[0] == 'b');
    assert("border_up"@.len() == 9 && "border_up"@[0] == 'b' && "border_up"@[7] == 'u');
    assert("border_down"@.len() == 11 && "border_down"@[0] == 'b' && "border_down"@[7] == 'd');
    assert("border_left"@.len() == 11 && "border_left"@[0] == 'b' && "border_left"@[7] == 'l');
    assert("border_right"@.len() == 12 && "border_right"@[0] == 'b' && "border_right"@[7] == 'r');
    assert("border_up_size"@.len() == 14 && "border_up_size"@[0] == 'b' && "border_up_size"@[7] == 'u');
    assert("border_down_size"@.len() == 16 && "border_down_size"@[0] == 'b' && "border_down_size"@[7] == 'd');
    assert("border_left_size"@.len() == 16 && "border_left_size"@[0] == 'b' && "border_left_size"@[7] == 'l');
    assert("border_right_size"@.len() == 17 && "border_right_size"@[0] == 'b' && "border_right_size"@[7] == 'r');
    assert("border_color"@.len() == 12 && "border_color"@[0] == 'b' && "border_color"@[7] == 'c');
    assert("show_window_name"@.len() == 16 && "show_window_name"@[0] == 's' && "show_window_name"@[7] == 'n');
    assert("window_name_position"@.len() == 20 && "window_name_position"@[0] == 'w' && "window_name_position"@[7] == 'n');
    assert("display_name"@.len() == 12 && "display_name"@[0] == 'd' && "display_name"@[7] == '_');
    assert("gap_top"@.len() == 7 && "gap_top"@[0] == 'g');
    assert("gap_bottom"@.len() == 10 && "gap_bottom"@[0] == 'g' && "gap_bottom"@[7] == 't');
    assert("gap_left"@.len() == 8 && "gap_left"@[0] == 'g' && "gap_left"@[7] == 't');
    assert("gap_right"@.len() == 9 && "gap_right"@[0] == 'g' && "gap_right"@[7] == 'h');
    assert("gap_top_size"@.len() == 12 && "gap_top_size"@[0] == 'g' && "gap_top_size"@[7] == '_');
    assert("gap_bottom_size"@.len() == 15 && "gap_bottom_size"@[0] == 'g' && "gap_bottom_size"@[7] == 't');
    assert("gap_left_size"@.len() == 13 && "gap_left_size"@[0] == 'g' && "gap_left_size"@[7] == 't');
    assert("gap_right_size"@.len() == 14 && "gap_right_size"@[0] == 'g' && "gap_right_size"@[7] == 'h');
    lemma_option_u32_bound(value);
    let o2 = options_add(o, "gap_top"@, value)->Ok_0;
    assert forall|n2: Seq<char>| n2 != "gap_top"@ implies #[trigger] option_word(o2, n2) == option_word(o, n2) by {}
}

#[verifier::rlimit(50)]
proof fn lemma_set_gap_bottom(o: OptionsModel, value: Seq<char>)
    requires
        options_add(o, "gap_bottom"@, value) is Ok,
    ensures
        forall|n2: Seq<char>| n2 != "gap_bottom"@ ==> #[trigger] option_word(options_add(o, "gap_bottom"@, value)->Ok_0, n2) == option_word(o, n2),
        option_word(options_add(o, "gap_bottom"@, value)->Ok_0, "gap_bottom"@) == Some(bool_word(option_bool(value)->Some_0)),
{
    reveal_strlit("border_up");
    reveal_strlit("border_down");
    reveal_strlit("border_left");
    reveal_strlit("border_right");
    reveal_strlit("border_up_size");
    reveal_strlit("border_down_size");
    reveal_strlit("border_left_size");
    reveal_strlit("border_right_size");
    reveal_strlit("border_color");
    reveal_strlit("show_window_name");
    reveal_strlit("window_name_position");
    reveal_strlit("display_name");
    reveal_strlit("gap_top");
    reveal_strlit("gap_bottom");
    reveal_strlit("gap_left");
    reveal_strlit("gap_right");
    reveal_strlit("gap_top_size");
    reveal_strlit("gap_bottom_size");
    reveal_strlit("gap_left_size");
    reveal_strlit("gap_right_size");
    assert("border_right"@[7] == 'r' && "border_color"@[7] == 'c' && "display_name"@[0] == 'd' && "gap_top_size"@[0] == 'g');
    assert("border_right"@[0] == 'b' && "border_color"@[0] == 'b');
    assert("show_window_name"@[0] == 's' && "border_down_size"@[0] == 'b' && "border_left_size"@[0] == 'b');
    assert("gap_bottom_size"@[0] == 'g' && "border_left"@[0] == 'b' && "border_down"@[0] == 'b');
    assert("border_up"@.len() == 9 && "border_up"@[0] == 'b' && "border_up"@[7] == 'u');
    assert("border_down"@.len() == 11 && "border_down"@[0] == 'b' && "border_down"@[7] == 'd');
    assert("border_left"@.len() == 11 && "border_left"@[0] == 'b' && "border_left"@[7] == 'l');
    assert("border_right"@.len() == 12 && "border_right"@[0] == 'b' && "border_right"@[7] == 'r');
    assert("border_up_size"@.len() == 14 && "border_up_size"@[0] == 'b' && "border_up_size"@[7] == 'u');
    assert("border_down_size"@.len() == 16 && "border_down_size"@[0] == 'b' && "border_down_size"@[7] == 'd');
    assert("border_left_size"@.len() == 16 && "border_left_size"@[0] == 'b' && "border_left_size"@[7] == 'l');
    assert("border_right_size"@.len() == 17 && "border_right_size"@[0] == 'b' && "border_right_size"@[7] == 'r');
    assert("border_color"@.len() == 12 && "border_color"@[0] == 'b' && "border_color"@[7] == 'c');
    assert("show_window_name"@.len() == 16 && "show_window_name"@[0] == 's' && "show_window_name"@[7] == 'n');
    assert("window_name_position"@.len() == 20 && "window_name_position"@[0] == 'w' && "window_name_position"@[7] == 'n');
    assert("display_name"@.len() == 12 && "display_name"@[0] == 'd' && "display_name"@[7] == '_');
    assert("gap_top"@.len() == 7 && "gap_top"@[0] == 'g');
    assert("gap_bottom"@.len() == 10 && "gap_bottom"@[0] == 'g' && "gap_bottom"@[7] == 't');
    assert("gap_left"@.len() == 8 && "gap_left"@[0] == 'g' && "gap_left"@[7] == 't');
    assert("gap_right"@.len() == 9 && "gap_right"@[0] == 'g' && "gap_right"@[7] == 'h');
    assert("gap_top_size"@.len() == 12 && "gap_top_size"@[0] == 'g' && "gap_top_size"@[7] == '_');
    assert("gap_bottom_size"@.len() == 15 && "gap_bottom_size"@[0] == 'g' && "gap_bottom_size"@[7] == 't');
    assert("gap_left_size"@.len() == 13 && "gap_left_size"@[0] == 'g' && "gap_left_size"@[7] == 't');
    assert("gap_right_size"@.len() == 14 && "gap_right_size"@[0] == 'g' && "gap_right_size"@[7] == 'h');
    lemma_option_u32_bound(value);
    let o2 = options_add(o, "gap_bottom"@, value)->Ok_0;
    assert forall|n2: Seq<char>| n2 != "gap_bottom"@ implies #[trigger] option_word(o2, n2) == option_word(o, n2) by {}
}

#[verifier::rlimit(50)]
proof fn lemma_set_gap_left(o: OptionsModel, value: Seq<char>)
    requires
        options_add(o, "gap_left"@, value) is Ok,
    ensures
        forall|n2: Seq<char>| n2 != "gap_left"@ ==> #[trigger] option_word(options_add(o, "gap_left"@, value)->Ok_0, n2) == option_word(o, n2),
        option_word(options_add(o, "gap_left"@, value)->Ok_0, "gap_left"@) == Some(bool_word(option_bool(value)->Some_0)),
{
    reveal_strlit("border_up");
    reveal_strlit("border_down");
    reveal_strlit("border_left");
    reveal_strlit("border_right");
    reveal_strlit("border_up_size");
    reveal_strlit("border_down_size");
    reveal_strlit("border_left_size");
    reveal_strlit("border_right_size");
    reveal_strlit("border_color");
    reveal_strlit("show_window_name");
    reveal_strlit("window_name_position");
    reveal_strlit("display_name");
    reveal_strlit("gap_top");
    reveal_strlit("gap_bottom");
    reveal_strlit("gap_left");
    reveal_strlit("gap_right");
    reveal_strlit("gap_top_size");
    reveal_strlit("gap_bottom_size");
    reveal_strlit("gap_left_size");
    reveal_strlit("gap_right_size");
    assert("border_right"@[7] == 'r' && "border_color"@[7] == 'c' && "display_name"@[0] == 'd' && "gap_top_size"@[0] == 'g');
    assert("border_right"@[0] == 'b' && "border_color"@[0] == 'b');
    assert("show_window_name"@[0] == 's' && "border_down_size"@[0] == 'b' && "border_left_size"@[0] == 'b');
    assert("gap_bottom_size"@[0] == 'g' && "border_left"@[0] == 'b' && "border_down"@[0] == 'b');
    assert("border_up"@.len() == 9 && "border_up"@[0] == 'b' && "border_up"@[7] == 'u');
    assert("border_down"@.len() == 11 && "border_down"@[0] == 'b' && "border_down"@[7] == 'd');
    assert("border_left"@.len() == 11 && "border_left"@[0] == 'b' && "border_left"@[7] == 'l');
    assert("border_right"@.len() == 12 && "border_right"@[0] == 'b' && "border_right"@[7] == 'r');
    assert("border_up_size"@.len() == 14 && "border_up_size"@[0] == 'b' && "border_up_size"@[7] == 'u');
    assert("border_down_size"@.len() == 16 && "border_down_size"@[0] == 'b' && "border_down_size"@[7] == 'd');
    assert("border_left_size"@.len() == 16 && "border_left_size"@[0] == 'b' && "border_left_size"@[7] == 'l');
    assert("border_right_size"@.len() == 17 && "border_right_size"@[0] == 'b' && "border_right_size"@[7] == 'r');
    assert("border_color"@.len() == 12 && "border_color"@[0] == 'b' && "border_color"@[7] == 'c');
    assert("show_window_name"@.len() == 16 && "show_window_name"@[0] == 's' && "show_window_name"@[7] == 'n');
    assert("window_name_position"@.len() == 20 && "window_name_position"@[0] == 'w' && "window_name_position"@[7] == 'n');
    assert("display_name"@.len() == 12 && "display_name"@[0] == 'd' && "display_name"@[7] == '_');
    assert("gap_top"@.len() == 7 && "gap_top"@[0] == 'g');
    assert("gap_bottom"@.len() == 10 && "gap_bottom"@[0] == 'g' && "gap_bottom"@[7] == 't');
    assert("gap_left"@.len() == 8 && "gap_left"@[0] == 'g' && "gap_left"@[7] == 't');
    assert("gap_right"@.len() == 9 && "gap_right"@[0] == 'g' && "gap_right"@[7] == 'h');
    assert("gap_top_size"@.len() == 12 && "gap_top_size"@[0] == 'g' && "gap_top_size"@[7] == '_');
    assert("gap_bottom_size"@.len() == 15 && "gap_bottom_size"@[0] == 'g' && "gap_bottom_size"@[7] == 't');
    assert("gap_left_size"@.len() == 13 && "gap_left_size"@[0] == 'g' && "gap_left_size"@[7] == 't');
    assert("gap_right_size"@.len() == 14 && "gap_right_size"@[0] == 'g' && "gap_right_size"@[7] == 'h');
    lemma_option_u32_bound(value);
    let o2 = options_add(o, "gap_left"@, value)->Ok_0;
    assert forall|n2: Seq<char>| n2 != "gap_left"@ implies #[trigger] option_word(o2, n2) == option_word(o, n2) by {}
}

#[verifier::rlimit(50)]
proof fn lemma_set_gap_right(o: OptionsModel, value: Seq<char>)
    requires
        options_add(o, "gap_right"@, value) is Ok,
    ensures
        forall|n2: Seq<char>| n2 != "gap_right"@ ==> #[trigger] option_word(options_add(o, "gap_right"@, value)->Ok_0, n2) == option_word(o, n2),
        option_word(options_add(o, "gap_right"@, value)->Ok_0, "gap_right"@) == Some(bool_word(option_bool(value)->Some_0)),
{
    reveal_strlit("border_up");
    reveal_strlit("border_down");
    reveal_strlit("border_left");
    reveal_strlit("border_right");
    reveal_strlit("border_up_size");
    reveal_strlit("border_down_size");
    reveal_strlit("border_left_size");
    reveal_strlit("border_right_size");
    reveal_strlit("border_color");
    reveal_strlit("show_window_name");
    reveal_strlit("window_name_position");
    reveal_strlit("display_name");
    reveal_strlit("gap_top");
    reveal_strlit("gap_bottom");
    reveal_strlit("gap_left");
    reveal_strlit("gap_right");
    reveal_strlit("gap_top_size");
    reveal_strlit("gap_bottom_size");
    reveal_strlit("gap_left_size");
    reveal_strlit("gap_right_size");
    assert("border_right"@[7] == 'r' && "border_color"@[7] == 'c' && "display_name"@[0] == 'd' && "gap_top_size"@[0] == 'g');
    assert("border_right"@[0] == 'b' && "border_color"@[0] == 'b');
    assert("show_window_name"@[0] == 's' && "border_down_size"@[0] == 'b' && "border_left_size"@[0] == 'b');
    assert("gap_bottom_size"@[0] == 'g' && "border_left"@[0] == 'b' && "border_down"@[0] == 'b');
    assert("border_up"@.len() == 9 && "border_up"@[0] == 'b' && "border_up"@[7] == 'u');
    assert("border_down"@.len() == 11 && "border_down"@[0] == 'b' && "border_down"@[7] == 'd');
    assert("border_left"@.len() == 11 && "border_left"@[0] == 'b' && "border_left"@[7] == 'l');
    assert("border_right"@.len() == 12 && "border_right"@[0] == 'b' && "border_right"@[7] == 'r');
    assert("border_up_size"@.len() == 14 && "border_up_size"@[0] == 'b' && "border_up_size"@[7] == 'u');
    assert("border_down_size"@.len() == 16 && "border_down_size"@[0] == 'b' && "border_down_size"@[7] == 'd');
    assert("border_left_size"@.len() == 16 && "border_left_size"@[0] == 'b' && "border_left_size"@[7] == 'l');
    assert("border_right_size"@.len() == 17 && "border_right_size"@[0] == 'b' && "border_right_size"@[7] == 'r');
    assert("border_color"@.len() == 12 && "border_color"@[0] == 'b' && "border_color"@[7] == 'c');
    assert("show_window_name"@.len() == 16 && "show_window_name"@[0] == 's' && "show_window_name"@[7] == 'n');
    assert("window_name_position"@.len() == 20 && "window_name_position"@[0] == 'w' && "window_name_position"@[7] == 'n');
    assert("display_name"@.len() == 12 && "display_name"@[0] == 'd' && "display_name"@[7] == '_');
    assert("gap_top"@.len() == 7 && "gap_top"@[0] == 'g');
    assert("gap_bottom"@.len() == 10 && "gap_bottom"@[0] == 'g' && "gap_bottom"@[7] == 't');
    assert("gap_left"@.len() == 8 && "gap_left"@[0] == 'g' && "gap_left"@[7] == 't');
    assert("gap_right"@.len() == 9 && "gap_right"@[0] == 'g' && "gap_right"@[7] == 'h');
    assert("gap_top_size"@.len() == 12 && "gap_top_size"@[0] == 'g' && "gap_top_size"@[7] == '_');
    assert("gap_bottom_size"@.len() == 15 && "gap_bottom_size"@[0] == 'g' && "gap_bottom_size"@[7] == 't');
    assert("gap_left_size"@.len() == 13 && "gap_left_size"@[0] == 'g' && "gap_left_size"@[7] == 't');
    assert("gap_right_size"@.len() == 14 && "gap_right_size"@[0] == 'g' && "gap_right_size"@[7] == 'h');
    lemma_option_u32_bound(value);
    let o2 = options_add(o, "gap_right"@, value)->Ok_0;
    assert forall|n2: Seq<char>| n2 != "gap_right"@ implies #[trigger] option_word(o2, n2) == option_word(o, n2) by {}
}

#[verifier::rlimit(50)]
proof fn lemma_set_gap_top_size(o: OptionsModel, value: Seq<char>)
    requires
        options_add(o, "gap_top_size"@, value) is Ok,
    ensures
        forall|n2: Seq<char>| n2 != "gap_top_size"@ ==> #[trigger] option_word(options_add(o, "gap_top_size"@, value)->Ok_0, n2) == option_word(o, n2),
        option_word(options_add(o, "gap_top_size"@, value)->Ok_0, "gap_top_size"@) == Some(decimal(option_u32(value)->Ok_0)),
{
    reveal_strlit("border_up");
    reveal_strlit("border_down");
    reveal_strlit("border_left");
    reveal_strlit("border_right");
    reveal_strlit("border_up_size");
    reveal_strlit("border_down_size");
    reveal_strlit("border_left_size");
    reveal_strlit("border_right_size");
    reveal_strlit("border_color");
    reveal_strlit("show_window_name");
    reveal_strlit("window_name_position");
    reveal_strlit("display_name");
    reveal_strlit("gap_top");
    reveal_strlit("gap_bottom");
    reveal_strlit("gap_left");
    reveal_strlit("gap_right");
    reveal_strlit("gap_top_size");
    reveal_strlit("gap_bottom_size");
    reveal_strlit("gap_left_size");
    reveal_strlit("gap_right_size");
    assert("border_right"@[7] == 'r' && "border_color"@[7] == 'c' && "display_name"@[0] == 'd' && "gap_top_size"@[0] == 'g');
    assert("border_right"@[0] == 'b' && "border_color"@[0] == 'b');
    assert("show_window_name"@[0] == 's' && "border_down_size"@[0] == 'b' && "border_left_size"@[0] == 'b');
    assert("gap_bottom_size"@[0] == 'g' && "border_left"@[0] == 'b' && "border_down"@[0] == 'b');
    assert("border_up"@.len() == 9 && "border_up"@[0] == 'b' && "border_up"@[7] == 'u');
    assert("border_down"@.len() == 11 && "border_down"@[0] == 'b' && "border_down"@[7] == 'd');
    assert("border_left"@.len() == 11 && "border_left"@[0] == 'b' && "border_left"@[7] == 'l');
    assert("border_right"@.len() == 12 && "border_right"@[0] == 'b' && "border_right"@[7] == 'r');
    assert("border_up_size"@.len() == 14 && "border_up_size"@[0] == 'b' && "border_up_size"@[7] == 'u');
    assert("border_down_size"@.len() == 16 && "border_down_size"@[0] == 'b' && "border_down_size"@[7] == 'd');
    assert("border_left_size"@.len() == 16 && "border_left_size"@[0] == 'b' && "border_left_size"@[7] == 'l');
    assert("border_right_size"@.len() == 17 && "border_right_size"@[0] == 'b' && "border_right_size"@[7] == 'r');
    assert("border_color"@.len() == 12 && "border_color"@[0] == 'b' && "border_color"@[7] == 'c');
    assert("show_window_name"@.len() == 16 && "show_window_name"@[0] == 's' && "show_window_name"@[7] == 'n');
    assert("window_name_position"@.len() == 20 && "window_name_position"@[0] == 'w' && "window_name_position"@[7] == 'n');
    assert("display_name"@.len() == 12 && "display_name"@[0] == 'd' && "display_name"@[7] == '_');
    assert("gap_top"@.len() == 7 && "gap_top"@[0] == 'g');
    assert("gap_bottom"@.len() == 10 && "gap_bottom"@[0] == 'g' && "gap_bottom"@[7] == 't');
    assert("gap_left"@.len() == 8 && "gap_left"@[0] == 'g' && "gap_left"@[7] == 't');
    assert("gap_right"@.len() == 9 && "gap_right"@[0] == 'g' && "gap_right"@[7] == 'h');
    assert("gap_top_size"@.len() == 12 && "gap_top_size"@[0] == 'g' && "gap_top_size"@[7] == '_');
    assert("gap_bottom_size"@.len() == 15 && "gap_bottom_size"@[0] == 'g' && "gap_bottom_size"@[7] == 't');
    assert("gap_left_size"@.len() == 13 && "gap_left_size"@[0] == 'g' && "gap_left_size"@[7] == 't');
    assert("gap_right_size"@.len() == 14 && "gap_right_size"@[0] == 'g' && "gap_right_size"@[7] == 'h');
    lemma_option_u32_bound(value);
    let o2 = options_add(o, "gap_top_size"@, value)->Ok_0;
    assert forall|n2: Seq<char>| n2 != "gap_top_size"@ implies #[trigger] option_word(o2, n2) == option_word(o, n2) by {}
}

#[verifier::rlimit(50)]
proof fn lemma_set_gap_bottom_size(o: OptionsModel, value: Seq<char>)
    requires
        options_add(o, "gap_bottom_size"@, value) is Ok,
    ensures
        forall|n2: Seq<char>| n2 != "gap_bottom_size"@ ==> #[trigger] option_word(options_add(o, "gap_bottom_size"@, value)->Ok_0, n2) == option_word(o, n2),
        option_word(options_add(o, "gap_bottom_size"@, value)->Ok_0, "gap_bottom_size"@) == Some(decimal(option_u32(value)->Ok_0)),
{
    reveal_strlit("border_up");
    reveal_strlit("border_down");
    reveal_strlit("border_left");
    reveal_strlit("border_right");
    reveal_strlit("border_up_size");
    reveal_strlit("border_down_size");
    reveal_strlit("border_left_size");
    reveal_strlit("border_right_size");
    reveal_strlit("border_color");
    reveal_strlit("show_window_name");
    reveal_strlit("window_name_position");
    reveal_strlit("display_name");
    reveal_strlit("gap_top");
    reveal_strlit("gap_bottom");
    reveal_strlit("gap_left");
    reveal_strlit("gap_right");
    reveal_strlit("gap_top_size");
    reveal_strlit("gap_bottom_size");
    reveal_strlit("gap_left_size");
    reveal_strlit("gap_right_size");
    assert("border_right"@[7] == 'r' && "border_color"@[7] == 'c' && "display_name"@[0] == 'd' && "gap_top_size"@[0] == 'g');
    assert("border_right"@[0] == 'b' && "border_color"@[0] == 'b');
    assert("show_window_name"@[0] == 's' && "border_down_size"@[0] == 'b' && "border_left_size"@[0] == 'b');
    assert("gap_bottom_size"@[0] == 'g' && "border_left"@[0] == 'b' && "border_down"@[0] == 'b');
    assert("border_up"@.len() == 9 && "border_up"@[0] == 'b' && "border_up"@[7] == 'u');
    assert("border_down"@.len() == 11 && "border_down"@[0] == 'b' && "border_down"@[7] == 'd');
    assert("border_left"@.len() == 11 && "border_left"@[0] == 'b' && "border_left"@[7] == 'l');
    assert("border_right"@.len() == 12 && "border_right"@[0] == 'b' && "border_right"@[7] == 'r');
    assert("border_up_size"@.len() == 14 && "border_up_size"@[0] == 'b' && "border_up_size"@[7] == 'u');
    assert("border_down_size"@.len() == 16 && "border_down_size"@[0] == 'b' && "border_down_size"@[7] == 'd');
    assert("border_left_size"@.len() == 16 && "border_left_size"@[0] == 'b' && "border_left_size"@[7] == 'l');
    assert("border_right_size"@.len() == 17 && "border_right_size"@[0] == 'b' && "border_right_size"@[7] == 'r');
    assert("border_color"@.len() == 12 && "border_color"@[0] == 'b' && "border_color"@[7] == 'c');
    assert("show_window_name"@.len() == 16 && "show_window_name"@[0] == 's' && "show_window_name"@[7] == 'n');
    assert("window_name_position"@.len() == 20 && "window_name_position"@[0] == 'w' && "window_name_position"@[7] == 'n');
    assert("display_name"@.len() == 12 && "display_name"@[0] == 'd' && "display_name"@[7] == '_');
    assert("gap_top"@.len() == 7 && "gap_top"@[0] == 'g');
    assert("gap_bottom"@.len() == 10 && "gap_bottom"@[0] == 'g' && "gap_bottom"@[7] == 't');
    assert("gap_left"@.len() == 8 && "gap_left"@[0] == 'g' && "gap_left"@[7] == 't');
    assert("gap_right"@.len() == 9 && "gap_right"@[0] == 'g' && "gap_right"@[7] == 'h');
    assert("gap_top_size"@.len() == 12 && "gap_top_size"@[0] == 'g' && "gap_top_size"@[7] == '_');
    assert("gap_bottom_size"@.len() == 15 && "gap_bottom_size"@[0] == 'g' && "gap_bottom_size"@[7] == 't');
    assert("gap_left_size"@.len() == 13 && "gap_left_size"@[0] == 'g' && "gap_left_size"@[7] == 't');
    assert("gap_right_size"@.len() == 14 && "gap_right_size"@[0] == 'g' && "gap_right_size"@[7] == 'h');
    lemma_option_u32_bound(value);
    let o2 = options_add(o, "gap_bottom_size"@, value)->Ok_0;
    assert forall|n2: Seq<char>| n2 != "gap_bottom_size"@ implies #[trigger] option_word(o2, n2) == option_word(o, n2) by {}
}

#[verifier::rlimit(50)]
proof fn lemma_set_gap_left_size(o: OptionsModel, value: Seq<char>)
    requires
        options_add(o, "gap_left_size"@, value) is Ok,
    ensures
        forall|n2: Seq<char>| n2 != "gap_left_size"@ ==> #[trigger] option_word(options_add(o, "gap_left_size"@, value)->Ok_0, n2) == option_word(o, n2),
        option_word(options_add(o, "gap_left_size"@, value)->Ok_0, "gap_left_size"@) == Some(decimal(option_u32(value)->Ok_0)),
{
    reveal_strlit("border_up");
    reveal_strlit("border_down");
    reveal_strlit("border_left");
    reveal_strlit("border_right");
    reveal_strlit("border_up_size");
    reveal_strlit("border_down_size");
    reveal_strlit("border_left_size");
    reveal_strlit("border_right_size");
    reveal_strlit("border_color");
    reveal_strlit("show_window_name");
    reveal_strlit("window_name_position");
    reveal_strlit("display_name");
    reveal_strlit("gap_top");
    reveal_strlit("gap_bottom");
    reveal_strlit("gap_left");
    reveal_strlit("gap_right");
    reveal_strlit("gap_top_size");
    reveal_strlit("gap_bottom_size");
    reveal_strlit("gap_left_size");
    reveal_strlit("gap_right_size");
    assert("border_right"@[7] == 'r' && "border_color"@[7] == 'c' && "display_name"@[0] == 'd' && "gap_top_size"@[0] == 'g');
    assert("border_right"@[0] == 'b' && "border_color"@[0] == 'b');
    assert("show_window_name"@[0] == 's' && "border_down_size"@[0] == 'b' && "border_left_size"@[0] == 'b');
    assert("gap_bottom_size"@[0] == 'g' && "border_left"@[0] == 'b' && "border_down"@[0] == 'b');
    assert("border_up"@.len() == 9 && "border_up"@[0] == 'b' && "border_up"@[7] == 'u');
    assert("border_down"@.len() == 11 && "border_down"@[0] == 'b' && "border_down"@[7] == 'd');
    assert("border_left"@.len() == 11 && "border_left"@[0] == 'b' && "border_left"@[7] == 'l');
    assert("border_right"@.len() == 12 && "border_right"@[0] == 'b' && "border_right"@[7] == 'r');
    assert("border_up_size"@.len() == 14 && "border_up_size"@[0] == 'b' && "border_up_size"@[7] == 'u');
    assert("border_down_size"@.len() == 16 && "border_down_size"@[0] == 'b' && "border_down_size"@[7] == 'd');
    assert("border_left_size"@.len() == 16 && "border_left_size"@[0] == 'b' && "border_left_size"@[7] == 'l');
    assert("border_right_size"@.len() == 17 && "border_right_size"@[0] == 'b' && "border_right_size"@[7] == 'r');
    assert("border_color"@.len() == 12 && "border_color"@[0] == 'b' && "border_color"@[7] == 'c');
    assert("show_window_name"@.len() == 16 && "show_window_name"@[0] == 's' && "show_window_name"@[7] == 'n');
    assert("window_name_position"@.len() == 20 && "window_name_position"@[0] == 'w' && "window_name_position"@[7] == 'n');
    assert("display_name"@.len() == 12 && "display_name"@[0] == 'd' && "display_name"@[7] == '_');
    assert("gap_top"@.len() == 7 && "gap_top"@[0] == 'g');
    assert("gap_bottom"@.len() == 10 && "gap_bottom"@[0] == 'g' && "gap_bottom"@[7] == 't');
    assert("gap_left"@.len() == 8 && "gap_left"@[0] == 'g' && "gap_left"@[7] == 't');
    assert("gap_right"@.len() == 9 && "gap_right"@[0] == 'g' && "gap_right"@[7] == 'h');
    assert("gap_top_size"@.len() == 12 && "gap_top_size"@[0] == 'g' && "gap_top_size"@[7] == '_');
    assert("gap_bottom_size"@.len() == 15 && "gap_bottom_size"@[0] == 'g' && "gap_bottom_size"@[7] == 't');
    assert("gap_left_size"@.len() == 13 && "gap_left_size"@[0] == 'g' && "gap_left_size"@[7] == 't');
    assert("gap_right_size"@.len() == 14 && "gap_right_size"@[0] == 'g' && "gap_right_size"@[7] == 'h');
    lemma_option_u32_bound(value);
    let o2 = options_add(o, "gap_left_size"@, value)->Ok_0;
    assert forall|n2: Seq<char>| n2 != "gap_left_size"@ implies #[trigger] option_word(o2, n2) == option_word(o, n2) by {}
}

#[verifier::rlimit(50)]
proof fn lemma_set_gap_right_size(o: OptionsModel, value: Seq<char>)
    requires
        options_add(o, "gap_right_size"@, value) is Ok,
    ensures
        forall|n2: Seq<char>| n2 != "gap_right_size"@ ==> #[trigger] option_word(options_add(o, "gap_right_size"@, value)->Ok_0, n2) == option_word(o, n2),
        option_word(options_add(o, "gap_right_size"@, value)->Ok_0, "gap_right_size"@) == Some(decimal(option_u32(value)->Ok_0)),
{
    reveal_strlit("border_up");
    reveal_strlit("border_down");
    reveal_strlit("border_left");
    reveal_strlit("border_right");
    reveal_strlit("border_up_size");
    reveal_strlit("border_down_size");
    reveal_strlit("border_left_size");
    reveal_strlit("border_right_size");
    reveal_strlit("border_color");
    reveal_strlit("show_window_name");
    reveal_strlit("window_name_position");
    reveal_strlit("display_name");
    reveal_strlit("gap_top");
    reveal_strlit("gap_bottom");
    reveal_strlit("gap_left");
    reveal_strlit("gap_right");
    reveal_strlit("gap_top_size");
    reveal_strlit("gap_bottom_size");
    reveal_strlit("gap_left_size");
    reveal_strlit("gap_right_size");
    assert("border_right"@[7] == 'r' && "border_color"@[7] == 'c' && "display_name"@[0] == 'd' && "gap_top_size"@[0] == 'g');
    assert("border_right"@[0] == 'b' && "border_color"@[0] == 'b');
    assert("show_window_name"@[0] == 's' && "border_down_size"@[0] == 'b' && "border_left_size"@[0] == 'b');
    assert("gap_bottom_size"@[0] == 'g' && "border_left"@[0] == 'b' && "border_down"@[0] == 'b');
    assert("border_up"@.len() == 9 && "border_up"@[0] == 'b' && "border_up"@[7] == 'u');
    assert("border_down"@.len() == 11 && "border_down"@[0] == 'b' && "border_down"@[7] == 'd');
    assert("border_left"@.len() == 11 && "border_left"@[0] == 'b' && "border_left"@[7] == 'l');
    assert("border_right"@.len() == 12 && "border_right"@[0] == 'b' && "border_right"@[7] == 'r');
    assert("border_up_size"@.len() == 14 && "border_up_size"@[0] == 'b' && "border_up_size"@[7] == 'u');
    assert("border_down_size"@.len() == 16 && "border_down_size"@[0] == 'b' && "border_down_size"@[7] == 'd');
    assert("border_left_size"@.len() == 16 && "border_left_size"@[0] == 'b' && "border_left_size"@[7] == 'l');
    assert("border_right_size"@.len() == 17 && "border_right_size"@[0] == 'b' && "border_right_size"@[7] == 'r');
    assert("border_color"@.len() == 12 && "border_color"@[0] == 'b' && "border_color"@[7] == 'c');
    assert("show_window_name"@.len() == 16 && "show_window_name"@[0] == 's' && "show_window_name"@[7] == 'n');
    assert("window_name_position"@.len() == 20 && "window_name_position"@[0] == 'w' && "window_name_position"@[7] == 'n');
    assert("display_name"@.len() == 12 && "display_name"@[0] == 'd' && "display_name"@[7] == '_');
    assert("gap_top"@.len() == 7 && "gap_top"@[0] == 'g');
    assert("gap_bottom"@.len() == 10 && "gap_bottom"@[0] == 'g' && "gap_bottom"@[7] == 't');
    assert("gap_left"@.len() == 8 && "gap_left"@[0] == 'g' && "gap_left"@[7] == 't');
    assert("gap_right"@.len() == 9 && "gap_right"@[0] == 'g' && "gap_right"@[7] == 'h');
    assert("gap_top_size"@.len() == 12 && "gap_top_size"@[0] == 'g' && "gap_top_size"@[7] == '_');
    assert("gap_bottom_size"@.len() == 15 && "gap_bottom_size"@[0] == 'g' && "gap_bottom_size"@[7] == 't');
    assert("gap_left_size"@.len() == 13 && "gap_left_size"@[0] == 'g' && "gap_left_size"@[7] == 't');
    assert("gap_right_size"@.len() == 14 && "gap_right_size"@[0] == 'g' && "gap_right_size"@[7] == 'h');
    lemma_option_u32_bound(value);
    let o2 = options_add(o, "gap_right_size"@, value)->Ok_0;
    assert forall|n2: Seq<char>| n2 != "gap_right_size"@ implies #[trigger] option_word(o2, n2) == option_word(o, n2) by {}
}

/// Applying the same setting line twice has the effect of applying it once.
pub proof fn law_option_line_idempotent(o: OptionsModel, name: Seq<char>, value: Seq<char>)
    requires
        options_add(o, name, value) is Ok,
    ensures
        options_add(options_add(o, name, value)->Ok_0, name, value) == options_add(o, name, value),
{
    if is_border_setting(name) {
        lemma_border_line_idempotent(o, name, value);
    } else {
        lemma_other_line_idempotent(o, name, value);
    }
}

/// The last keybind that clashes with `kb` is a keybind of the list that clashes with it.
proof fn lemma_last_clash(s: Seq<KeybindModel>, kb: KeybindModel)
    ensures
        last_clash(s, kb) matches Some(i) ==> 0 <= i < s.len() && clashes(s[i], kb)
            && forall|j: int| i < j < s.len() ==> !clashes(s[j], kb),
        last_clash(s, kb) is None ==> forall|j: int| 0 <= j < s.len() ==> !clashes(s[j], kb),
    decreases s.len(),
{
    if s.len() > 0 {
        lemma_last_clash(s.drop_last(), kb);
        if !clashes(s.last(), kb) {
            assert forall|j: int| 0 <= j < s.len() - 1 implies s[j] == s.drop_last()[j] by {}
        }
    }
}

/// A keybind just added is the last one, the list grows by at most one, and adding the
/// same keybind again changes nothing.
pub proof fn law_keybind_added_last(s: Seq<KeybindModel>, kb: KeybindModel)
    ensures
        keybinds_add(s, kb).last() == kb,
        keybinds_add(s, kb).len() == s.len() || keybinds_add(s, kb).len() == s.len() + 1,
        keybinds_add(keybinds_add(s, kb), kb) == keybinds_add(s, kb),
{
    lemma_last_clash(s, kb);
    let t = keybinds_add(s, kb);
    assert(clashes(t.last(), kb));
    assert(last_clash(t, kb) == Some(t.len() - 1));
    assert(t.remove(t.len() - 1).push(kb) =~= t);
}

/// No two keybinds of the list run the same action or use the same keys.
pub open spec fn keybinds_distinct(s: Seq<KeybindModel>) -> bool {
    forall|i: int, j: int| 0 <= i < j < s.len() ==> #[trigger] s[i].action != #[trigger] s[j].action && s[i].keys != s[j].keys
}

/// Adding a keybind replaces the one that runs the same action or uses the same keys: when
/// no two keybinds of the list share an action or keys, and at most one of them shares the
/// action or the keys of the new keybind, the list after adding it still has no two
/// keybinds with the same action or the same keys, and the new keybind is last.
pub proof fn law_keybind_replaces_its_clash(s: Seq<KeybindModel>, kb: KeybindModel)
    requires
        keybinds_distinct(s),
        forall|i: int, j: int| 0 <= i < j < s.len() ==> !((#[trigger] s[i].action == kb.action || s[i].keys == kb.keys)
            && (#[trigger] s[j].action == kb.action || s[j].keys == kb.keys)),
    ensures
        keybinds_add(s, kb).last() == kb,
        keybinds_distinct(keybinds_add(s, kb)),
        forall|i: int| 0 <= i < keybinds_add(s, kb).len() - 1 ==> (#[trigger] keybinds_add(s, kb)[i]).action != kb.action
            && keybinds_add(s, kb)[i].keys != kb.keys,
{
    lemma_last_clash(s, kb);
    let t = keybinds_add(s, kb);
    match last_clash(s, kb) {
        Some(c) => {
            let r = s.remove(c);
            assert(t == r.push(kb));
            assert forall|i: int| 0 <= i < r.len() implies (#[trigger] r[i]).action != kb.action && r[i].keys != kb.keys by {
                let si = if i < c { i } else { i + 1 };
                assert(r[i] == s[si]);
                if si < c {
                    assert(!((s[si].action == kb.action || s[si].keys == kb.keys) && (s[c].action == kb.action || s[c].keys == kb.keys)));
                } else {
                    assert(!clashes(s[si], kb));
                }
            }
            assert forall|i: int, j: int| 0 <= i < j < t.len() implies #[trigger] t[i].action != #[trigger] t[j].action && t[i].keys != t[j].keys by {
                if j < r.len() {
                    let si = if i < c { i } else { i + 1 };
                    let sj = if j < c { j } else { j + 1 };
                    assert(r[i] == s[si] && r[j] == s[sj]);
                    assert(s[si].action != s[sj].action && s[si].keys != s[sj].keys);
                } else {
                    assert(t[i] == r[i]);
                    assert(t[j] == kb);
                }
            }
        },
        None => {
            assert(t == s.push(kb));
            assert forall|i: int, j: int| 0 <= i < j < t.len() implies #[trigger] t[i].action != #[trigger] t[j].action && t[i].keys != t[j].keys by {
                if j < s.len() {
                    assert(t[i] == s[i] && t[j] == s[j]);
                } else {
                    assert(t[i] == s[i]);
                    assert(!clashes(s[i], kb));
                }
            }
            assert forall|i: int| 0 <= i < t.len() - 1 implies (#[trigger] t[i]).action != kb.action && t[i].keys != kb.keys by {
                assert(t[i] == s[i]);
                assert(!clashes(s[i], kb));
            }
        },
    }
}

/// The identifiers of a list of bars are all different.
pub open spec fn bar_ids_unique(bars: Seq<BarModel>) -> bool {
    forall|i: int, j: int| 0 <= i < bars.len() && 0 <= j < bars.len() && i != j ==> bars[i].identifier != bars[j].identifier
}

proof fn lemma_first_bar_with(bars: Seq<BarModel>, id: u32)
    ensures
        first_bar_with(bars, id) matches Some(i) ==> 0 <= i < bars.len() && bars[i].identifier == id,
        first_bar_with(bars, id) is None ==> forall|j: int| 0 <= j < bars.len() ==> bars[j].identifier != id,
    decreases bars.len(),
{
    if bars.len() > 0 {
        lemma_first_bar_with(bars.drop_last(), id);
        assert forall|j: int| 0 <= j < bars.len() - 1 implies bars[j] == bars.drop_last()[j] by {}
    }
}

/// A bar setting line keeps every bar's identifier (so identifiers stay different), adds
/// at most one bar, and the bar it names is then there.
pub proof fn law_bar_ids_stay_unique(bars: Seq<BarModel>, id: u32, name: Seq<char>, v: Seq<Seq<char>>)
    requires
        bar_ids_unique(bars),
        crate::config::bar_settings::bar_setting_readable(name, v),
    ensures
        bar_ids_unique(bars_add(bars, id, name, v).0),
        bars_add(bars, id, name, v).0.len() == bars.len() + (if first_bar_with(bars, id) is Some { 0int } else { 1int }),
        forall|j: int| 0 <= j < bars.len() ==> #[trigger] bars_add(bars, id, name, v).0[j].identifier == bars[j].identifier,
        exists|j: int| 0 <= j < bars_add(bars, id, name, v).0.len() && bars_add(bars, id, name, v).0[j].identifier == id,
{
    lemma_first_bar_with(bars, id);
    let (all, i) = match first_bar_with(bars, id) {
        Some(i) => (bars, i),
        None => (bars.push(default_bar(id)), bars.len() as int),
    };
    let bar = all[i];
    let (b2, r) = crate::config::bar_settings::bar_setting(bar, name, v);
    lemma_bar_setting_keeps_id(bar, name, v);
    let out = bars_add(bars, id, name, v).0;
    assert(out == all.update(i, b2));
    assert(out[i].identifier == id);
    assert(forall|j: int| 0 <= j < all.len() ==> #[trigger] out[j].identifier == all[j].identifier);
}

/// A bar setting never changes the bar's identifier.
proof fn lemma_bar_setting_keeps_id(bar: BarModel, name: Seq<char>, v: Seq<Seq<char>>)
    ensures
        crate::config::bar_settings::bar_setting(bar, name, v).0.identifier == bar.identifier,
{
}

/// A workspace setting line keeps the number of workspaces and their identifiers.
pub proof fn law_workspace_settings_keep_identifiers(s: Seq<WorkspaceSettingsModel>, id: u32, name: Seq<char>, value: Seq<Seq<char>>)
    requires
        workspace_add(s, id, name, value) is Ok,
    ensures
        workspace_add(s, id, name, value)->Ok_0.len() == s.len(),
        forall|j: int| 0 <= j < s.len() ==> #[trigger] workspace_add(s, id, name, value)->Ok_0[j].identifier == s[j].identifier,
{
    lemma_first_with_identifier(s, id);
}

/// The digit written for a digit value reads back as that value.
proof fn lemma_digit_round_trip(d: nat)
    requires
        d < 10,
    ensures
        is_digit(digit_char(d)),
        digit_value(digit_char(d)) == d,
{
}

/// The decimal notation of `n` reads `n` back, digit by digit, without passing `max`.
proof fn lemma_read_decimal(n: nat, max: nat)
    requires
        n <= max,
    ensures
        read_digits(decimal(n), max) == Ok::<nat, crate::error::IntErrorKind>(n),
    decreases n,
{
    if n < 10 {
        lemma_digit_round_trip(n);
        assert(decimal(n).drop_last() =~= Seq::<char>::empty());
        reveal_with_fuel(read_digits, 2);
    } else {
        lemma_read_decimal(n / 10, max);
        lemma_digit_round_trip(n % 10);
        assert(decimal(n).drop_last() =~= decimal(n / 10));
        assert((n / 10) * 10 + n % 10 == n);
    }
}

/// Reading the decimal notation of a number that fits gives the number back.
pub proof fn law_decimal_reads_back(n: nat, max: nat)
    requires
        n <= max,
    ensures
        parse_uint(decimal(n), max) == Ok::<nat, crate::error::IntErrorKind>(n),
{
    lemma_read_decimal(n, max);
    let d = decimal(n);
    assert(d.len() > 0 && is_digit(d[0])) by {
        lemma_decimal_first_digit(n);
    }
}

proof fn lemma_decimal_first_digit(n: nat)
    ensures
        decimal(n).len() > 0,
        is_digit(decimal(n)[0]),
    decreases n,
{
    if n < 10 {
        lemma_digit_round_trip(n);
    } else {
        lemma_decimal_first_digit(n / 10);
        assert(decimal(n)[0] == decimal(n / 10)[0]);
    }
}

/// The config word of a direction names that direction.
pub proof fn law_direction_word_round_trip(d: Direction)
    ensures
        direction_named(direction_name(d)) == Some(d),
{
    reveal_strlit("next");
    reveal_strlit("previous");
    assert("next"@ != "previous"@) by {
        assert("next"@.len() != "previous"@.len());
    }
}

/// Asking to focus the workspace that has the focus changes nothing and asks nothing of
/// the X server.
pub proof fn law_refocus_changes_nothing(ws: Seq<Workspace>, ms: Seq<MonitorModel>, id: WorkspaceId)
    ensures
        focus_step(ws, ms, Some(id), id) == (FocusStep { early: true, monitors: ms, focused: Some(id), result: Ok((seq![], seq![])) }),
{
}

/// After a successful focus, the workspace asked for has the focus, so focusing it again
/// changes nothing.
pub proof fn law_focused_after_focus(ws: Seq<Workspace>, ms: Seq<MonitorModel>, focused: Option<WorkspaceId>, id: WorkspaceId)
    requires
        focus_step(ws, ms, focused, id).result is Ok,
    ensures
        focus_step(ws, ms, focused, id).focused == Some(id) || (focused is None && id == 0),
{
}

/// The first monitor that satisfies `p` is the first index where `p` holds.
proof fn lemma_first_monitor(ms: Seq<MonitorModel>, p: spec_fn(MonitorModel) -> bool)
    ensures
        match first_monitor(ms, p) {
            Some(i) => 0 <= i < ms.len() && p(ms[i]) && forall|j: int| 0 <= j < i ==> !p(#[trigger] ms[j]),
            None => forall|j: int| 0 <= j < ms.len() ==> !p(#[trigger] ms[j]),
        },
    decreases ms.len(),
{
    if ms.len() > 0 {
        lemma_first_monitor(ms.drop_last(), p);
        assert forall|j: int| 0 <= j < ms.len() - 1 implies ms.drop_last()[j] == ms[j] by {}
    }
}

/// The monitors as the window manager keeps them: their ids differ, at most one has the
/// focus, and the focused workspace is open on the first monitor that holds it, which has
/// the focus.
pub open spec fn monitors_consistent(ms: Seq<MonitorModel>, focused: Option<WorkspaceId>) -> bool {
    &&& ids_differ(ms)
    &&& forall|i: int, j: int| 0 <= i < j < ms.len() ==> !(#[trigger] ms[i].focused && #[trigger] ms[j].focused)
    &&& (focused matches Some(f) ==> (monitor_holding(ms, f) matches Some(k) && ms[k].focused
        && ms[k].open_workspace == Some(f)))
}

/// After a successful focus of the workspace `id` (not 0) on consistent monitors, the first
/// monitor that holds `id` shows it and has the focus, no other monitor has the focus, and
/// the monitors are still consistent.
pub proof fn law_focus_shows_workspace(ws: Seq<Workspace>, ms: Seq<MonitorModel>, focused: Option<WorkspaceId>, id: WorkspaceId)
    requires
        monitors_consistent(ms, focused),
        id != 0,
        focus_step(ws, ms, focused, id).result is Ok,
    ensures
        monitor_holding(ms, id) is Some,
        ({
            let st = focus_step(ws, ms, focused, id);
            let n = monitor_holding(ms, id)->Some_0;
            &&& st.focused == Some(id)
            &&& st.monitors.len() == ms.len()
            &&& st.monitors[n].open_workspace == Some(id)
            &&& st.monitors[n].focused
            &&& forall|i: int| 0 <= i < ms.len() && i != n ==> !(#[trigger] st.monitors[i]).focused
            &&& monitors_consistent(st.monitors, st.focused)
        }),
{
    let st = focus_step(ws, ms, focused, id);
    let pf = |m: MonitorModel| m.focused;
    let ph = |m: MonitorModel| m.workspaces.contains(id);
    lemma_first_monitor(ms, pf);
    lemma_first_monitor(ms, ph);
    // Every monitor but the one `focused_or_first` picks is without focus.
    let cur = focused_or_first(ms)->Some_0;
    assert(ms.len() > 0 ==> forall|i: int| 0 <= i < ms.len() && i != cur ==> !(#[trigger] ms[i]).focused) by {
        if ms.len() > 0 {
            assert forall|i: int| 0 <= i < ms.len() && i != cur implies !(#[trigger] ms[i]).focused by {
                if ms[i].focused {
                    let k = first_monitor(ms, pf)->Some_0;
                    assert(pf(ms[i]));
                    if i < k {
                    } else {
                        assert(ms[k].focused);
                    }
                }
            }
        }
    }
    if id == (match focused { Some(f) => f, None => 0 }) {
        let n = monitor_holding(ms, id)->Some_0;
        assert forall|i: int| 0 <= i < ms.len() && i != n implies !(#[trigger] st.monitors[i]).focused by {
            if ms[i].focused {
                if i < n {
                    assert(!(ms[i].focused && ms[n].focused));
                } else {
                    assert(!(ms[n].focused && ms[i].focused));
                }
            }
        }
    } else {
        let n = monitor_holding(ms, id)->Some_0;
        let cur_id = ms[cur].id;
        let new_id = ms[n].id;
        lemma_monitor_with_id(ms, cur);
        lemma_monitor_with_id(ms, n);
        if cur_id == new_id {
            assert(n == cur);
            let m1 = MonitorModel { open_workspace: Some(id), focused: true, ..ms[n] };
            lemma_first_monitor_update(ms, n, m1, ph);
            assert(st.monitors == ms.update(n, m1));
            assert(monitor_holding(st.monitors, id) == first_monitor(ms.update(n, m1), ph));
            lemma_update_keeps_consistent(ms, n, m1);
        } else {
            assert(n != cur);
            let ms1 = ms.update(n, MonitorModel { focused: true, ..ms[n] });
            lemma_first_monitor_update(ms, n, MonitorModel { focused: true, ..ms[n] }, ph);
            lemma_first_monitor_update(ms, n, MonitorModel { focused: true, ..ms[n] }, |m: MonitorModel| m.id == cur_id);
            lemma_update_keeps_consistent(ms, n, MonitorModel { focused: true, ..ms[n] });
            if ms[n].open_workspace == Some(id) {
                let c1 = monitor_with_id(ms1, cur_id)->Some_0;
                assert(c1 == cur);
                let m2 = MonitorModel { focused: false, ..ms1[cur] };
                lemma_first_monitor_update(ms1, cur, m2, ph);
                lemma_update_keeps_consistent(ms1, cur, m2);
                assert(st.monitors == ms1.update(cur, m2));
            } else {
                let ms2 = ms1.update(n, MonitorModel { open_workspace: Some(id), ..ms1[n] });
                lemma_first_monitor_update(ms1, n, MonitorModel { open_workspace: Some(id), ..ms1[n] }, ph);
                lemma_first_monitor_update(ms1, n, MonitorModel { open_workspace: Some(id), ..ms1[n] }, |m: MonitorModel| m.id == cur_id);
                lemma_update_keeps_consistent(ms1, n, MonitorModel { open_workspace: Some(id), ..ms1[n] });
                let c1 = monitor_with_id(ms2, cur_id)->Some_0;
                assert(c1 == cur);
                let m2 = MonitorModel { focused: false, ..ms2[cur] };
                lemma_first_monitor_update(ms2, cur, m2, ph);
                lemma_update_keeps_consistent(ms2, cur, m2);
                assert(st.monitors == ms2.update(cur, m2));
            }
        }
    }
}

/// Monitor ids differ.
pub open spec fn ids_differ(ms: Seq<MonitorModel>) -> bool {
    forall|i: int, j: int| 0 <= i < j < ms.len() ==> #[trigger] ms[i].id != #[trigger] ms[j].id
}

/// With ids that differ, a monitor is the first with its id.
proof fn lemma_monitor_with_id(ms: Seq<MonitorModel>, i: int)
    requires
        ids_differ(ms),
        0 <= i < ms.len(),
    ensures
        monitor_with_id(ms, ms[i].id) == Some(i),
{
    let mid = ms[i].id;
    let p = |m: MonitorModel| m.id == mid;
    lemma_first_monitor(ms, p);
    assert(p(ms[i]));
    let k = first_monitor(ms, p)->Some_0;
    if k < i {
        assert(ms[k].id != ms[i].id);
    } else if k > i {
        assert(!p(ms[i]));
    }
}

/// Changing a monitor into one that `p` judges the same way keeps the first monitor that
/// satisfies `p`.
proof fn lemma_first_monitor_update(ms: Seq<MonitorModel>, k: int, m: MonitorModel, p: spec_fn(MonitorModel) -> bool)
    requires
        0 <= k < ms.len(),
        p(m) == p(ms[k]),
    ensures
        first_monitor(ms.update(k, m), p) == first_monitor(ms, p),
{
    let t = ms.update(k, m);
    lemma_first_monitor(ms, p);
    lemma_first_monitor(t, p);
    assert forall|j: int| 0 <= j < ms.len() implies p(#[trigger] t[j]) == p(ms[j]) by {}
    match first_monitor(ms, p) {
        Some(i) => {
            assert(p(t[i]));
            let r = first_monitor(t, p);
            if r is None {
                assert(!p(t[i]));
            } else {
                let i2 = r->Some_0;
                assert(p(ms[i2]));
                if i2 < i {
                    assert(!p(ms[i2]));
                } else if i2 > i {
                    assert(!p(t[i]));
                }
            }
        },
        None => {
            if first_monitor(t, p) is Some {
                let i2 = first_monitor(t, p)->Some_0;
                assert(p(ms[i2]));
            }
        },
    }
}

/// Changing a monitor's focus or open workspace keeps the ids different.
proof fn lemma_update_keeps_consistent(ms: Seq<MonitorModel>, k: int, m: MonitorModel)
    requires
        0 <= k < ms.len(),
        ids_differ(ms),
        m.id == ms[k].id,
        m.workspaces == ms[k].workspaces,
    ensures
        ids_differ(ms.update(k, m)),
{
    let t = ms.update(k, m);
    assert forall|i: int, j: int| 0 <= i < j < t.len() implies #[trigger] t[i].id != #[trigger] t[j].id by {
        assert(t[i].id == ms[i].id && t[j].id == ms[j].id);
    }
}

/// Putting many clients into a workspace at once is putting them in one by one: the same
/// containers at the end, the same last container id, and the same ids, which all differ.
pub proof fn law_insert_many_is_one_by_one(cv: Seq<Container>, wid: u32, last: nat, cs: Seq<Client>, ts: Seq<u8>, k: nat)
    requires
        k <= cs.len(),
        k <= ts.len(),
        last + k <= u32::MAX,
    ensures
        inserted_one_by_one(cv, wid, last, cs, ts, k) == (
            cv + Seq::new(k, |i: int| new_container(cs[i], ContainerId::spec_new(wid, (last + i + 1) as u32), ts[i])),
            last + k,
            Seq::new(k, |i: int| ContainerId::spec_new(wid, (last + i + 1) as u32)),
        ),
        forall|i: int, j: int| 0 <= i < j < k ==> #[trigger] inserted_one_by_one(cv, wid, last, cs, ts, k).2[i]
            != #[trigger] inserted_one_by_one(cv, wid, last, cs, ts, k).2[j],
    decreases k,
{
    if k > 0 {
        law_insert_many_is_one_by_one(cv, wid, last, cs, ts, (k - 1) as nat);
        let prev = inserted_one_by_one(cv, wid, last, cs, ts, (k - 1) as nat);
        let id = ContainerId::spec_new(wid, (last + k) as u32);
        assert(prev.1 + 1 == last + k);
        assert(prev.0.push(new_container(cs[k - 1], id, ts[k - 1])) =~= cv + Seq::new(
            k,
            |i: int| new_container(cs[i], ContainerId::spec_new(wid, (last + i + 1) as u32), ts[i]),
        ));
        assert(prev.2.push(id) =~= Seq::new(k, |i: int| ContainerId::spec_new(wid, (last + i + 1) as u32)));
    }
}

/// `k` shares of `total / n` (for `k < n`) fit in `total`, with room for one more.
proof fn lemma_shares_fit(total: int, n: int, k: int)
    requires
        0 <= total,
        1 <= n,
        0 <= k < n,
    ensures
        0 <= k * (total / n),
        k * (total / n) + total / n <= total,
{
    assert(0 <= total / n) by (nonlinear_arith)
        requires 0 <= total, 1 <= n;
    assert(n * (total / n) <= total) by (nonlinear_arith)
        requires 0 <= total, 1 <= n;
    assert(0 <= k * (total / n)) by (nonlinear_arith)
        requires 0 <= k, 0 <= total / n;
    assert(k * (total / n) + total / n <= n * (total / n)) by (nonlinear_arith)
        requires k + 1 <= n, 0 <= total / n;
}

/// In the equal vertical layout the `k`-th of `n` placed windows is a full-width band of
/// height `screen.height / n`, `k` such bands below the top of the screen: the bands are
/// stacked top to bottom without overlapping and stay on the screen (when the screen's
/// height and bottom edge fit in 16-bit coordinates).
pub proof fn law_vertical_bands(screen: Geometry, n: nat, k: nat, empty: bool)
    requires
        1 <= n <= 65535,
        k < n,
        screen.height <= 32767,
        screen.y + screen.height <= 32767,
    ensures
        ({
            let g = LayoutType::TilingEqualVertical.tiled_geometry(screen, n, k, empty);
            let h = (screen.height as nat) / n;
            &&& g.x == screen.x
            &&& g.width == screen.width
            &&& g.height == h
            &&& g.y == screen.y + k * h
            &&& screen.y <= g.y
            &&& g.y + g.height <= screen.y + screen.height
        }),
{
    let h = (screen.height as nat) / n;
    lemma_shares_fit(screen.height as int, n as int, k as int);
    assert((n as u16) == n);
    assert(((screen.height / (n as u16)) as u16) == h);
    assert(h <= 32767);
    assert(k * h <= 32767);
    if h == 0 {
        assert(k * h == 0) by (nonlinear_arith) requires h == 0;
        assert((h as i16).wrapping_mul(k as i16) == 0) by (nonlinear_arith)
            requires h == 0, (h as i16) == 0;
    } else {
        assert(k <= 32767) by (nonlinear_arith) requires k * h <= 32767, h >= 1, k >= 0;
        assert((k as i16) == k);
        assert((h as i16) == h);
        assert((h as i16).wrapping_mul(k as i16) == k * h) by (nonlinear_arith)
            requires (h as i16) == h, (k as i16) == k, 0 <= k * h <= 32767;
    }
}

/// In the equal horizontal layout the `k`-th of `n` placed windows is a full-height column
/// of width `screen.width / n`, `k` such columns right of the screen's left edge: the
/// columns stand side by side without overlapping and stay on the screen (when the
/// screen's width and right edge fit in 16-bit coordinates).
pub proof fn law_horizontal_columns(screen: Geometry, n: nat, k: nat, empty: bool)
    requires
        1 <= n <= 65535,
        k < n,
        screen.width <= 32767,
        screen.x + screen.width <= 32767,
    ensures
        ({
            let g = LayoutType::TilingEqualHorizontal.tiled_geometry(screen, n, k, empty);
            let w = (screen.width as nat) / n;
            &&& g.y == screen.y
            &&& g.height == screen.height
            &&& g.width == w
            &&& g.x == screen.x + k * w
            &&& screen.x <= g.x
            &&& g.x + g.width <= screen.x + screen.width
        }),
{
    let w = (screen.width as nat) / n;
    lemma_shares_fit(screen.width as int, n as int, k as int);
    assert((n as u16) == n);
    assert(((screen.width / (n as u16)) as u16) == w);
    assert(w <= 32767);
    assert(k * w <= 32767);
    if w == 0 {
        assert(k * w == 0) by (nonlinear_arith) requires w == 0;
        assert((w as i16).wrapping_mul(k as i16) == 0) by (nonlinear_arith)
            requires w == 0, (w as i16) == 0;
    } else {
        assert(k <= 32767) by (nonlinear_arith) requires k * w <= 32767, w >= 1, k >= 0;
        assert((k as i16) == k);
        assert((w as i16) == w);
        assert((w as i16).wrapping_mul(k as i16) == k * w) by (nonlinear_arith)
            requires (w as i16) == w, (k as i16) == k, 0 <= k * w <= 32767;
    }
}

/// In the master-stack layout with `n` placed windows (at least two) the first takes the
/// left half of the screen, full height; the `k`-th of the others (`k` from 1) is a row of
/// height `screen.height / (n - 1)` in the right half, `k - 1` rows below the top, starting
/// one pixel left of the middle: the rows are stacked without overlapping and stay on the
/// screen (when its size and far edges fit in 16-bit coordinates).
pub proof fn law_master_stack_rows(screen: Geometry, n: nat, k: nat)
    requires
        2 <= n <= 65536,
        k < n,
        screen.width <= 32767,
        screen.height <= 32767,
        -32767 <= screen.x,
        screen.x + screen.width <= 32767,
        screen.y + screen.height <= 32767,
    ensures
        ({
            let g = LayoutType::TilingMasterStack.tiled_geometry(screen, n, k, false);
            let h = (screen.height as nat) / ((n - 1) as nat);
            let half = screen.width / 2;
            &&& k == 0 ==> g == Geometry { x: screen.x, y: screen.y, width: half, height: screen.height }
            &&& k > 0 ==> {
                &&& g.x == screen.x + half - 1
                &&& g.width == half
                &&& g.height == h
                &&& g.y == screen.y + (k - 1) * h
                &&& screen.y <= g.y
                &&& g.y + g.height <= screen.y + screen.height
            }
        }),
{
    let m = (n - 1) as nat;
    let h = (screen.height as nat) / m;
    if k > 0 {
        let j = (k - 1) as nat;
        lemma_shares_fit(screen.height as int, m as int, j as int);
        assert((m as u16) == m);
        assert(((screen.height / ((n - 1) as u16)) as u16) == h);
        assert(h <= 32767);
        assert(j * h <= 32767);
        assert(((screen.width / 2) as u16) as i16 == screen.width / 2);
        if h == 0 {
            assert(j * h == 0) by (nonlinear_arith) requires h == 0;
            assert((h as i16).wrapping_mul(j as i16) == 0) by (nonlinear_arith)
                requires h == 0, (h as i16) == 0;
        } else {
            assert(j <= 32767) by (nonlinear_arith) requires j * h <= 32767, h >= 1, j >= 0;
            assert((j as i16) == j);
            assert((h as i16) == h);
            assert((h as i16).wrapping_mul(j as i16) == j * h) by (nonlinear_arith)
                requires (h as i16) == h, (j as i16) == j, 0 <= j * h <= 32767;
        }
    }
}

/// The area `g` and its far edges fit in 16-bit coordinates.
pub open spec fn fits_i16(g: Geometry) -> bool {
    g.width <= 32767 && g.height <= 32767 && g.x + g.width <= 32767 && g.y + g.height <= 32767
}

/// The point (`x`, `y`) lies in the area `g`, edges included.
pub open spec fn inside(g: Geometry, x: int, y: int) -> bool {
    g.x <= x <= g.x + g.width && g.y <= y <= g.y + g.height
}

proof fn lemma_point_in(g: Geometry, x: i16, y: i16)
    requires
        fits_i16(g),
    ensures
        point_in(g, x, y) == inside(g, x as int, y as int),
{
    assert((g.width as i16) == g.width);
    assert((g.height as i16) == g.height);
}

/// A new window goes to the workspace under the pointer: when the pointer is on the
/// monitor `k` (edges included) and on no monitor before it, the workspace under it is the
/// one open on monitor `k` (when monitors fit in 16-bit coordinates).
pub proof fn law_cursor_picks_its_monitor(ws: Seq<Workspace>, ms: Seq<MonitorModel>, x: i16, y: i16, k: int)
    requires
        0 <= k < ms.len(),
        forall|j: int| 0 <= j <= k ==> fits_i16(#[trigger] ms[j].size),
        inside(ms[k].size, x as int, y as int),
        forall|j: int| 0 <= j < k ==> !inside(#[trigger] ms[j].size, x as int, y as int),
    ensures
        match ms[k].open_workspace {
            None => under_cursor(ws, ms, x, y) == Err::<WorkspaceId, ErrorModel>(ErrorModel::NoOpenWorkspace),
            Some(o) => workspace_index(ws, o) is Some ==> under_cursor(ws, ms, x, y) == Ok::<WorkspaceId, ErrorModel>(o),
        },
{
    let p = |m: MonitorModel| point_in(m.size, x, y);
    lemma_first_monitor(ms, p);
    assert forall|j: int| 0 <= j <= k implies p(#[trigger] ms[j]) == inside(ms[j].size, x as int, y as int) by {
        lemma_point_in(ms[j].size, x, y);
    }
    assert(p(ms[k]));
    let f = first_monitor(ms, p);
    assert(f is Some);
    let i = f->Some_0;
    if i < k {
        assert(p(ms[i]));
        assert(!inside(ms[i].size, x as int, y as int));
    } else if i > k {
        assert(!p(ms[k]));
    }
}

/// Focusing a workspace with a pointer warp sends the pointer to the middle of that
/// workspace's screen, which lies on the screen (when the screen fits in 16-bit
/// coordinates).
pub proof fn law_warp_to_middle_of_workspace(
    ws: Seq<Workspace>,
    ms: Seq<MonitorModel>,
    focused: Option<WorkspaceId>,
    id: WorkspaceId,
    u: Seq<u32>,
    m: Seq<u32>,
    wx: i16,
    wy: i16,
)
    requires
        focus_result(ws, ms, focused, id, true) == Ok::<(Seq<u32>, Seq<u32>, Option<(i16, i16)>), ErrorModel>((u, m, Some((wx, wy)))),
    ensures
        workspace_index(ws, id) is Some,
        ({
            let g = ws[workspace_index(ws, id)->Some_0].spec_screen();
            fits_i16(g) ==> {
                &&& wx == g.x + g.width / 2
                &&& wy == g.y + g.height / 2
                &&& inside(g, wx as int, wy as int)
            }
        }),
{
    let g = ws[workspace_index(ws, id)->Some_0].spec_screen();
    assert(((g.width / 2) as i16) == g.width / 2);
    assert(((g.height / 2) as i16) == g.height / 2);
}

/// A drag that ends where the button went down leaves the window where it was.
pub proof fn law_drag_in_place(g: Geometry, x: i16, y: i16)
    ensures
        ({
            let d = pointer_diff((x as i32, y as i32), x, y);
            dragged(g, d.0, d.1) == g
        }),
{
    let d = pointer_diff((x as i32, y as i32), x, y);
    assert((x as i32) as i16 == x) by (bit_vector);
    assert((y as i32) as i16 == y) by (bit_vector);
    assert(d.0 == 0 && d.1 == 0);
}

/// A resize that ends where the button went down keeps the window's size, unless the window
/// is smaller than a window may be resized to.
pub proof fn law_resize_in_place(g: Geometry, x: i16, y: i16)
    ensures
        resized(g, pointer_diff((x as i32, y as i32), x, y)) == (if g.width < MIN_WIDTH || g.height < MIN_HEIGHT {
            None
        } else {
            Some(g)
        }),
{
    let d = pointer_diff((x as i32, y as i32), x, y);
    assert((x as i32) as i16 == x) by (bit_vector);
    assert((y as i32) as i16 == y) by (bit_vector);
    assert(d.0 == 0 && d.1 == 0);
    let w = g.width;
    let h = g.height;
    assert(((w as i16) as u16) == w) by (bit_vector);
    assert(((h as i16) as u16) == h) by (bit_vector);
}

/// Dragging with the pointer still moves nothing, and a drag moves a window as far one
/// way as the other (while the distance stays within the range of `i16`).
pub proof fn law_drag_distance_symmetric(d: i16)
    requires
        -21845 <= d <= 21845,
    ensures
        drag_distance(0) == 0,
        drag_distance(-d as i16) == -drag_distance(d),
{
}

/// Toggling a client's container twice (floating and back, or into the layout and back)
/// gives the container it was.
pub proof fn law_toggle_twice_restores(c: Container)
    requires
        !(c.container_type is Empty),
    ensures
        toggled(c) is Some,
        toggled(toggled(c)->Some_0) == Some(c),
{
}

/// The bytes of a client message in the 8-bit format start with the data given, when it
/// fits, and are always twenty.
pub proof fn law_message_bytes_kept(data: Seq<u8>)
    requires
        data.len() <= 20,
    ensures
        padded(data, 20, 0u8).len() == 20,
        padded(data, 20, 0u8).take(data.len() as int) == data,
{
    assert(padded(data, 20, 0u8).take(data.len() as int) =~= data);
}

/// Text without separators is one piece.
proof fn lemma_split_without_separator(s: Seq<char>, sep: char)
    requires
        !s.contains(sep),
    ensures
        split_fold(s, sep) == (Seq::<Seq<char>>::empty(), s),
    decreases s.len(),
{
    if s.len() > 0 {
        assert(!s.drop_last().contains(sep)) by {
            if s.drop_last().contains(sep) {
                let i = choose|i: int| 0 <= i < s.drop_last().len() && s.drop_last()[i] == sep;
                assert(s[i] == sep);
            }
        }
        lemma_split_without_separator(s.drop_last(), sep);
        assert(s.last() != sep) by {
            assert(s[s.len() - 1] == s.last());
        }
        assert(s.drop_last().push(s.last()) =~= s);
    }
}

/// Splitting text that has a separator right after `p` gives the pieces of `p`, then those
/// of the rest.
proof fn lemma_split_after_separator(p: Seq<char>, s: Seq<char>, sep: char)
    ensures
        split_fold(p + seq![sep] + s, sep) == (split_on(p, sep) + split_fold(s, sep).0, split_fold(s, sep).1),
    decreases s.len(),
{
    let t = p + seq![sep] + s;
    if s.len() == 0 {
        assert(t.drop_last() =~= p);
        assert(split_on(p, sep) + split_fold(s, sep).0 =~= split_on(p, sep));
    } else {
        lemma_split_after_separator(p, s.drop_last(), sep);
        assert(t.drop_last() =~= p + seq![sep] + s.drop_last());
        assert(t.last() == s.last());
        let (a, b) = split_fold(s.drop_last(), sep);
        if s.last() == sep {
            assert((split_on(p, sep) + a).push(b) =~= split_on(p, sep) + a.push(b));
        }
    }
}

/// A word without the separator, the separator, then more text: the word is the first
/// piece and the pieces of the rest follow.
proof fn lemma_split_word_then_rest(w: Seq<char>, t: Seq<char>, sep: char)
    requires
        !w.contains(sep),
    ensures
        split_on(w + seq![sep] + t, sep) == seq![w] + split_on(t, sep),
{
    lemma_split_without_separator(w, sep);
    lemma_split_after_separator(w, t, sep);
    assert(split_on(w, sep) =~= seq![w]);
    let (a, b) = split_fold(t, sep);
    assert((seq![w] + a).push(b) =~= seq![w] + a.push(b));
}

/// The decimal notation of a number is made of digits only.
proof fn lemma_decimal_digits(n: nat)
    ensures
        forall|i: int| 0 <= i < decimal(n).len() ==> is_digit(#[trigger] decimal(n)[i]),
    decreases n,
{
    if n < 10 {
        lemma_digit_round_trip(n);
    } else {
        lemma_decimal_digits(n / 10);
        lemma_digit_round_trip(n % 10);
        let d = decimal(n / 10);
        assert forall|i: int| 0 <= i < decimal(n).len() implies is_digit(#[trigger] decimal(n)[i]) by {
            if i < d.len() {
                assert(decimal(n)[i] == d[i]);
            }
        }
    }
}

proof fn lemma_no_space_in_decimal(n: nat)
    ensures
        !decimal(n).contains(' '),
{
    lemma_decimal_digits(n);
    if decimal(n).contains(' ') {
        let i = choose|i: int| 0 <= i < decimal(n).len() && decimal(n)[i] == ' ';
        assert(is_digit(decimal(n)[i]));
    }
}

proof fn lemma_no_space_in_direction(d: Direction)
    ensures
        !direction_name(d).contains(' '),
{
    reveal_strlit("next");
    reveal_strlit("previous");
    let w = direction_name(d);
    if w.contains(' ') {
        let i = choose|i: int| 0 <= i < w.len() && w[i] == ' ';
        assert(w[i] == ' ');
    }
}

/// The config text of an action can be read by `Action::from_str` and reads back as that
/// action, when the layout name of `change_layout` has no space in it (the text is split
/// at its spaces; the command of `execute` is joined again by spaces).
pub proof fn law_action_text_reads_back(a: ActionModel)
    requires
        a matches ActionModel::ChangeLayout(l) ==> !l.contains(' '),
    ensures
        action_readable(action_text(a)),
        parse_action(action_text(a)) == Ok::<ActionModel, crate::wm::actions::ActionError>(a),
{
    reveal_strlit(" ");
    reveal_strlit("noop");
    reveal_strlit("execute");
    reveal_strlit("execute ");
    reveal_strlit("exec");
    reveal_strlit("kill");
    reveal_strlit("goto");
    reveal_strlit("goto ");
    reveal_strlit("move");
    reveal_strlit("move ");
    reveal_strlit("focus");
    reveal_strlit("focus ");
    reveal_strlit("swap");
    reveal_strlit("swap ");
    reveal_strlit("change_layout");
    reveal_strlit("change_layout ");
    reveal_strlit("cycle_layout");
    reveal_strlit("toggle_float");
    reveal_strlit("reload_config");
    let s = action_text(a);
    assert("noop"@[0] == 'n' && "exec"@[0] == 'e' && "kill"@[0] == 'k' && "goto"@[0] == 'g');
    assert("move"@[0] == 'm' && "swap"@[0] == 's' && "focus"@[0] == 'f' && "execute"@[0] == 'e');
    assert("cycle_layout"@[0] == 'c' && "toggle_float"@[0] == 't' && "change_layout"@[0] == 'c');
    assert("reload_config"@[0] == 'r');
    match a {
        ActionModel::Goto(n) => {
            lemma_no_space_in_decimal(n as nat);
            assert("goto "@ =~= "goto"@ + " "@);
            lemma_argument_reads_back("goto"@, decimal(n as nat));
            law_decimal_reads_back(n as nat, usize::MAX as nat);
        },
        ActionModel::Move(n) => {
            lemma_no_space_in_decimal(n as nat);
            assert("move "@ =~= "move"@ + " "@);
            lemma_argument_reads_back("move"@, decimal(n as nat));
            law_decimal_reads_back(n as nat, usize::MAX as nat);
        },
        ActionModel::Focus(d) => {
            lemma_no_space_in_direction(d);
            assert("focus "@ =~= "focus"@ + " "@);
            lemma_argument_reads_back("focus"@, direction_name(d));
            law_direction_word_round_trip(d);
        },
        ActionModel::Swap(d) => {
            lemma_no_space_in_direction(d);
            assert("swap "@ =~= "swap"@ + " "@);
            lemma_argument_reads_back("swap"@, direction_name(d));
            law_direction_word_round_trip(d);
        },
        ActionModel::Execute(c) => {
            assert("execute "@ =~= "execute"@ + " "@);
            assert(s =~= "execute"@ + seq![' '] + c);
            lemma_split_word_then_rest("execute"@, c, ' ');
            let parts = split_on(s, ' ');
            assert(parts[0] == "execute"@);
            assert(parts.drop_first() =~= split_on(c, ' '));
            lemma_join_split(c, ' ');
            assert(" "@ =~= seq![' ']);
        },
        ActionModel::ChangeLayout(l) => {
            assert("change_layout "@ =~= "change_layout"@ + " "@);
            lemma_argument_reads_back("change_layout"@, l);
        },
        _ => {
            lemma_split_without_separator(s, ' ');
            assert(split_on(s, ' ') =~= seq![s]);
            assert(split_on(s, ' ').drop_first() =~= Seq::<Seq<char>>::empty());
        },
    }
}

/// Joining the pieces of `s` by the separator gives `s` back.
proof fn lemma_join_split(s: Seq<char>, sep: char)
    ensures
        join_with(split_on(s, sep), seq![sep]) == s,
    decreases s.len(),
{
    if s.len() > 0 {
        let t = s.drop_last();
        lemma_join_split(t, sep);
        let (p, cur) = split_fold(t, sep);
        assert(t.push(s.last()) =~= s);
        if s.last() == sep {
            let q = p.push(cur).push(seq![]);
            assert(q.drop_last() =~= p.push(cur));
            assert(join_with(q, seq![sep]) == join_with(p.push(cur), seq![sep]) + seq![sep] + q.last());
            assert(t + seq![sep] + Seq::<char>::empty() =~= s);
        } else {
            let q = p.push(cur.push(s.last()));
            assert(q.drop_last() =~= p);
            if p.len() == 0 {
                assert(p.push(cur) =~= seq![cur]);
                assert(join_with(seq![cur], seq![sep]) == cur);
                assert(q =~= seq![cur.push(s.last())]);
            } else {
                assert(p.push(cur).drop_last() =~= p);
                assert(join_with(p.push(cur), seq![sep]) == join_with(p, seq![sep]) + seq![sep] + cur);
                assert(join_with(q, seq![sep]) == join_with(p, seq![sep]) + seq![sep] + cur.push(s.last()));
                assert(join_with(p, seq![sep]) + seq![sep] + cur.push(s.last()) =~= (join_with(p, seq![sep]) + seq![sep] + cur).push(s.last()));
            }
        }
    }
}

/// An action word with one argument without spaces splits into the word and the argument.
proof fn lemma_argument_reads_back(word: Seq<char>, arg: Seq<char>)
    requires
        !word.contains(' '),
        !arg.contains(' '),
    ensures
        split_on(word + " "@ + arg, ' ') == seq![word, arg],
        split_on(word + " "@ + arg, ' ')[0] == word,
        split_on(word + " "@ + arg, ' ').drop_first() == seq![arg],
{
    reveal_strlit(" ");
    assert(word + " "@ + arg =~= word + seq![' '] + arg);
    lemma_split_word_then_rest(word, arg, ' ');
    lemma_split_without_separator(arg, ' ');
    assert(split_on(arg, ' ') =~= seq![arg]);
    assert(split_on(word + " "@ + arg, ' ') =~= seq![word, arg]);
    assert(seq![word, arg].drop_first() =~= seq![arg]);
}

/// A font description without `:` and `=` is the family alone, in normal slant and
/// weight.
pub proof fn law_font_family_only(s: Seq<char>)
    requires
        !s.contains(':'),
        !s.contains('='),
    ensures
        font_fold(split_on(s, ':')) == Ok::<(Seq<char>, FontSlant, FontWeight), ErrorModel>((s, FontSlant::Normal, FontWeight::Normal)),
{
    lemma_split_without_separator(s, ':');
    let parts = split_on(s, ':');
    assert(parts =~= seq![s]);
    assert(parts.drop_last() =~= Seq::<Seq<char>>::empty());
    assert(font_fold(parts.drop_last()) == Ok::<(Seq<char>, FontSlant, FontWeight), ErrorModel>((seq![], FontSlant::Normal, FontWeight::Normal)));
    assert(parts.last() == s);
    assert(font_fold(parts) == font_step(font_fold(parts.drop_last()), parts.last()));
}

/// A window the window manager starts managing has the focus of its workspace.
pub proof fn law_managed_window_has_focus(a: Workspace, c: Container, e: Seq<LayoutEffect>, window: u32, after: Workspace)
    requires
        placed_and_focused(a, c, e, window, after),
    ensures
        after.spec_focus().len() > 0,
        after.spec_focus()[0] == window,
{
    let laid = choose|laid: Workspace| #[trigger] relaid_with_inserted(a, c, laid, e) && refocused(laid, after, window);
    assert(refocused(laid, after, window));
}

/// Moving a client to another workspace takes one container from the workspace it leaves
/// and gives one to the workspace it goes to.
pub proof fn law_move_keeps_the_client(
    ws: Seq<Workspace>,
    s: int,
    t: int,
    window: u32,
    e1: Seq<LayoutEffect>,
    e2: Seq<LayoutEffect>,
    after: Seq<Workspace>,
)
    requires
        0 <= s < ws.len(),
        0 <= t < ws.len(),
        s != t,
        has_window(ws[s].containers_view(), window),
        window_moved(ws, s, t, window, e1, e2, after),
    ensures
        after[s].containers_view().len() == ws[s].containers_view().len() - 1,
        after[t].containers_view().len() == ws[t].containers_view().len() + 1,
{
    let cs = ws[s].containers_view();
    let mid = choose|mid: Seq<Workspace>| #[trigger] window_removed(ws, s, window, mid, e1) && only_changed_at(mid, after, t)
        && relaid_with_inserted(mid[t], cs[first_window(cs, window)], after[t], e2);
    lemma_first_window_unique(cs, window);
    let i = first_window(cs, window);
    assert(first_with_window(cs, window, i));
    let w1 = choose|w1: Workspace| #[trigger] with_containers(ws[s], w1, cs.remove(i)) && layout_applied(w1, mid[s], None, e1);
    assert(mid[s].containers_view().len() == cs.len() - 1);
    assert(after[s] == mid[s]);
    let w2 = choose|w2: Workspace| #[trigger] with_inserted(mid[t], w2, cs[i]) && layout_applied(w2, after[t], None, e2);
    assert(mid[t] == ws[t]);
}

} // verus!
