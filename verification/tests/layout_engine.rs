//! The layout engine on concrete inputs.

use komorebi::Flip;
use komorebi::Layout;
use komorebi::OperationDirection;
use komorebi::Rect;
use komorebi::Sizing;

fn area() -> Rect {
    Rect { left: 0, top: 0, right: 1920, bottom: 1080 }
}

#[test]
fn bsp_single_container_takes_whole_area() {
    let rects = Layout::Bsp.calculate(&area(), 1, None, None, &Vec::new());
    assert_eq!(rects.len(), 1);
    assert_eq!(rects[0], Rect { left: 0, top: 0, right: 1920, bottom: 1080 });
}

#[test]
fn bsp_two_containers_bisect_vertically() {
    let rects = Layout::Bsp.calculate(&area(), 2, None, None, &Vec::new());
    assert_eq!(rects.len(), 2);
    assert_eq!(rects[0], Rect { left: 0, top: 0, right: 960, bottom: 1080 });
    assert_eq!(rects[1], Rect { left: 960, top: 0, right: 960, bottom: 1080 });
}

#[test]
fn bsp_three_containers_alternate_cuts() {
    let rects = Layout::Bsp.calculate(&area(), 3, None, None, &Vec::new());
    assert_eq!(rects.len(), 3);
    assert_eq!(rects[0], Rect { left: 0, top: 0, right: 960, bottom: 1080 });
    assert_eq!(rects[1], Rect { left: 960, top: 0, right: 960, bottom: 540 });
    assert_eq!(rects[2], Rect { left: 960, top: 540, right: 960, bottom: 540 });
}

#[test]
fn columns_split_evenly_with_remainder_on_last() {
    let rects = Layout::Columns.calculate(
        &Rect { left: 0, top: 0, right: 1000, bottom: 600 },
        3,
        None,
        None,
        &Vec::new(),
    );
    assert_eq!(rects.len(), 3);
    assert_eq!(rects[0], Rect { left: 0, top: 0, right: 333, bottom: 600 });
    assert_eq!(rects[1], Rect { left: 333, top: 0, right: 333, bottom: 600 });
    assert_eq!(rects[2], Rect { left: 666, top: 0, right: 334, bottom: 600 });
}

#[test]
fn rows_split_evenly() {
    let rects = Layout::Rows.calculate(&area(), 2, None, None, &Vec::new());
    assert_eq!(rects[0], Rect { left: 0, top: 0, right: 1920, bottom: 540 });
    assert_eq!(rects[1], Rect { left: 0, top: 540, right: 1920, bottom: 540 });
}

#[test]
fn vertical_stack_main_left_stack_right() {
    let rects = Layout::VerticalStack.calculate(&area(), 3, None, None, &Vec::new());
    assert_eq!(rects[0], Rect { left: 0, top: 0, right: 960, bottom: 1080 });
    assert_eq!(rects[1], Rect { left: 960, top: 0, right: 960, bottom: 540 });
    assert_eq!(rects[2], Rect { left: 960, top: 540, right: 960, bottom: 540 });
}

#[test]
fn horizontal_flip_reflects_across_vertical_midline() {
    let rects = Layout::Bsp.calculate(&area(), 2, None, Some(Flip::Horizontal), &Vec::new());
    // the first container's half is reflected onto the right side
    assert_eq!(rects[0], Rect { left: 960, top: 0, right: 960, bottom: 1080 });
    assert_eq!(rects[1], Rect { left: 0, top: 0, right: 960, bottom: 1080 });
}

#[test]
fn container_padding_shrinks_every_rectangle() {
    let rects = Layout::Bsp.calculate(&area(), 2, Some(10), None, &Vec::new());
    assert_eq!(rects[0], Rect { left: 10, top: 10, right: 940, bottom: 1060 });
    assert_eq!(rects[1], Rect { left: 970, top: 10, right: 940, bottom: 1060 });
}

#[test]
fn resize_delta_shifts_the_layout_rectangle() {
    let delta = Rect { left: 0, top: 0, right: 50, bottom: 0 };
    let rects = Layout::Bsp.calculate(&area(), 2, None, None, &vec![Some(delta)]);
    assert_eq!(rects[0], Rect { left: 0, top: 0, right: 1010, bottom: 1080 });
    // the second container has no stored delta
    assert_eq!(rects[1], Rect { left: 960, top: 0, right: 960, bottom: 1080 });
}

#[test]
fn calculate_is_deterministic() {
    let a = Layout::Bsp.calculate(&area(), 4, Some(8), Some(Flip::Vertical), &Vec::new());
    let b = Layout::Bsp.calculate(&area(), 4, Some(8), Some(Flip::Vertical), &Vec::new());
    assert_eq!(a, b);
}

#[test]
fn resize_left_increase_moves_left_edge_out() {
    let r = Layout::Bsp.resize(
        &Rect { left: 960, top: 0, right: 960, bottom: 1080 },
        &None,
        OperationDirection::Left,
        Sizing::Increase,
        Some(50),
    );
    assert_eq!(r, Some(Rect { left: -50, top: 0, right: 50, bottom: 0 }));
}

#[test]
fn resize_accumulates_on_existing_delta() {
    let first = Some(Rect { left: 0, top: 0, right: 50, bottom: 0 });
    let r = Layout::Bsp.resize(
        &Rect { left: 0, top: 0, right: 960, bottom: 1080 },
        &first,
        OperationDirection::Right,
        Sizing::Increase,
        Some(50),
    );
    assert_eq!(r, Some(Rect { left: 0, top: 0, right: 100, bottom: 0 }));
}

#[test]
fn resize_outside_bsp_drops_the_delta() {
    let r = Layout::Columns.resize(
        &Rect { left: 0, top: 0, right: 960, bottom: 1080 },
        &None,
        OperationDirection::Right,
        Sizing::Increase,
        None,
    );
    assert_eq!(r, None);
}

#[test]
fn flip_merge_requesting_same_axis_twice_is_identity() {
    let once = Flip::merge(None, Flip::Horizontal);
    assert_eq!(once, Some(Flip::Horizontal));
    assert_eq!(Flip::merge(once, Flip::Horizontal), None);

    let v = Flip::merge(None, Flip::Vertical);
    assert_eq!(v, Some(Flip::Vertical));
    assert_eq!(Flip::merge(v, Flip::Vertical), None);
}

#[test]
fn flip_merge_combined_cycles_from_unflipped() {
    let once = Flip::merge(None, Flip::HorizontalAndVertical);
    assert_eq!(once, Some(Flip::HorizontalAndVertical));
    let twice = Flip::merge(once, Flip::HorizontalAndVertical);
    assert_eq!(twice, None);
    let thrice = Flip::merge(twice, Flip::HorizontalAndVertical);
    assert_eq!(thrice, Some(Flip::HorizontalAndVertical));
}

#[test]
fn flip_merge_axes_combine() {
    let h = Flip::merge(None, Flip::Horizontal);
    assert_eq!(Flip::merge(h, Flip::Vertical), Some(Flip::HorizontalAndVertical));
}

#[test]
fn bsp_direction_candidates() {
    // three containers: one left half, two stacked on the right
    let d = OperationDirection::Right;
    assert_eq!(d.new_idx(&Layout::Bsp, 0, 3), Some(1));
    assert_eq!(OperationDirection::Down.new_idx(&Layout::Bsp, 1, 3), Some(2));
    assert_eq!(OperationDirection::Left.new_idx(&Layout::Bsp, 1, 3), Some(0));
    assert_eq!(OperationDirection::Left.new_idx(&Layout::Bsp, 2, 3), Some(0));
    assert_eq!(OperationDirection::Up.new_idx(&Layout::Bsp, 2, 3), Some(1));
    assert_eq!(OperationDirection::Left.new_idx(&Layout::Bsp, 0, 3), None);
}

#[test]
fn columns_only_allow_left_and_right() {
    assert_eq!(OperationDirection::Up.new_idx(&Layout::Columns, 1, 3), None);
    assert_eq!(OperationDirection::Left.new_idx(&Layout::Columns, 1, 3), Some(0));
    assert_eq!(OperationDirection::Right.new_idx(&Layout::Columns, 1, 3), Some(2));
}

#[test]
fn vertical_stack_right_from_stack_returns_to_main() {
    assert_eq!(OperationDirection::Right.new_idx(&Layout::VerticalStack, 2, 3), Some(0));
    assert_eq!(OperationDirection::Right.new_idx(&Layout::VerticalStack, 0, 3), Some(1));
    assert_eq!(OperationDirection::Left.new_idx(&Layout::VerticalStack, 2, 3), Some(0));
}

#[test]
fn horizontal_stack_main_on_top() {
    let rects = Layout::HorizontalStack.calculate(&area(), 3, None, None, &Vec::new());
    assert_eq!(rects[0], Rect { left: 0, top: 0, right: 1920, bottom: 540 });
    assert_eq!(rects[1], Rect { left: 0, top: 540, right: 960, bottom: 540 });
    assert_eq!(rects[2], Rect { left: 960, top: 540, right: 960, bottom: 540 });
}

#[test]
fn ultrawide_centers_the_first_container() {
    let rects =
        Layout::UltrawideVerticalStack.calculate(&area(), 3, None, None, &Vec::new());
    // zones: center half, left quarter, right quarter
    assert_eq!(rects[0], Rect { left: 480, top: 0, right: 960, bottom: 1080 });
    assert_eq!(rects[1], Rect { left: 0, top: 0, right: 480, bottom: 1080 });
    assert_eq!(rects[2], Rect { left: 1440, top: 0, right: 480, bottom: 1080 });
}

#[test]
fn default_resize_step_is_fifty_pixels() {
    let r = Layout::Bsp.resize(
        &Rect { left: 0, top: 0, right: 960, bottom: 1080 },
        &None,
        OperationDirection::Down,
        Sizing::Increase,
        None,
    );
    assert_eq!(r, Some(Rect { left: 0, top: 0, right: 0, bottom: 50 }));
}
