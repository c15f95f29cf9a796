use stonemite::geometry::{Progress, Rect, Scale};
use stonemite::labels::LabelStyle;
use stonemite::scene_layout::{pip_content_stack_layout, CastingLayout, TimerLayout};
use stonemite::scenes::{
    border_strips, content_alpha, frame_visuals, inward_frame_strips, pip_scene_layout, ActiveLabelLayout,
    PipInteractionScene, UiTextRole, REORDER_DIM_ALPHA,
};
use stonemite::geometry::Color;

fn timer(bounds: Rect, dpi: u32, progress: Progress) -> TimerLayout {
    TimerLayout::new(bounds, Scale::from_dpi(dpi), progress)
}

#[test]
fn timer_layout_preserves_remaining_fraction_and_clamps_progress() {
    let bounds = Rect::new(0, 0, 200, 42);
    let start = timer(bounds, 96, Progress::new(-1, 1));
    let middle = timer(bounds, 96, Progress::new(1, 4));
    let expired = timer(bounds, 96, Progress::new(2, 1));
    assert_eq!(start.track, Rect::new(8, 30, 192, 34));
    assert_eq!(start.fill, start.track);
    assert_eq!(middle.fill.width(), 138);
    assert_eq!(expired.fill.width(), 0);
    assert_eq!(start.font_height, 16);
    assert_eq!(start.label_text.right, 138);
}

#[test]
fn timer_geometry_scales_at_supported_dpi_values() {
    for (dpi, expected_inset, expected_font) in [(96u32, 8, 16), (120, 10, 20), (144, 12, 24)] {
        let height = Scale::from_dpi(dpi).pixels(42);
        let layout = timer(Rect::new(0, 0, 300, height), dpi, Progress::new(1, 2));
        assert_eq!(layout.track.left, expected_inset);
        assert_eq!(layout.track.right, 300 - expected_inset);
        assert_eq!(layout.font_height, expected_font);
        assert_eq!(layout.fill.width(), layout.track.width() / 2);
    }
}

#[test]
fn clipped_timer_geometry_never_escapes_its_panel() {
    let layout = timer(Rect::new(10, 20, 24, 28), 144, Progress::new(1, 2));
    for rect in [layout.track, layout.fill, layout.label_text, layout.remaining_text] {
        assert_eq!(rect, rect.intersect(layout.panel));
        assert!(!rect.is_empty() || rect.width() == 0 || rect.height() == 0);
    }
}

#[test]
fn full_host_content_insets_produce_four_black_border_strips() {
    for (dpi, border) in [(96u32, 3), (120, 4), (144, 5)] {
        let canvas = Rect::new(0, 0, 320, Scale::from_dpi(dpi).pixels(180));
        let content = canvas.inset(border);
        let strips = border_strips(canvas, content);
        assert_eq!(content.left, border);
        assert_eq!(content.top, border);
        assert_eq!(content.right, canvas.right - border);
        assert_eq!(strips[0].height(), border);
        assert_eq!(strips[2].width(), border);
        assert!(strips.iter().all(|strip| *strip == strip.intersect(canvas)));
    }
}

#[test]
fn pip_layout_combines_inset_label_and_timer_without_overlap() {
    let layout = pip_scene_layout(
        Rect::new(0, 0, 320, 180),
        3,
        LabelStyle::new(Scale::unit(), 48),
        PipInteractionScene::default(),
        None,
        None,
        Some(Progress::new(1, 4)),
        220,
        0,
    );
    assert_eq!(content_alpha(204, false), 204);
    assert_eq!(layout.content, Rect::new(3, 3, 317, 177));
    assert_eq!(layout.label_bounds, Rect::new(3, 3, 223, 51));
    assert_eq!(layout.timer.map(|timer| timer.panel), Some(Rect::new(3, 55, 223, 97)));
    assert!(layout.indicator_frames.is_empty());
}

#[test]
fn notification_presence_enforces_the_established_content_alpha_floor() {
    assert_eq!(content_alpha(100, true), 245);
    assert_eq!(content_alpha(250, true), 250);
}

#[test]
fn reorder_dim_is_deliberately_translucent_over_the_dwm_thumbnail() {
    assert_eq!(REORDER_DIM_ALPHA, 64);
}

#[test]
fn active_timer_starts_only_after_the_label_gap() {
    let layout =
        ActiveLabelLayout::new(Rect::new(0, 0, 220, 94), LabelStyle::new(Scale::unit(), 48), Some(Progress::new(1, 2)));
    assert_eq!(layout.label_bounds.bottom, 48);
    assert_eq!(layout.timer.unwrap().panel.top, 52);
}

#[test]
fn rect_intersection_and_inset_are_clipped_for_tiny_surfaces() {
    let tiny = Rect::new(10, 20, 13, 22);
    assert_eq!(tiny.inset(50), Rect::new(11, 21, 12, 21));
    assert_eq!(tiny.intersect(Rect::new(50, 50, 60, 60)), Rect::new(50, 50, 50, 50));
}

#[test]
fn inward_frames_keep_all_edges_inside_supported_dpi_canvases() {
    for (width, height) in [(320, 180), (400, 225), (480, 270)] {
        let bounds = Rect::new(0, 0, width, height);
        let strips = inward_frame_strips(bounds);
        assert_eq!(strips[0], Rect::new(0, 0, width, 1));
        assert_eq!(strips[1], Rect::new(0, height - 1, width, height));
        assert_eq!(strips[2], Rect::new(0, 0, 1, height));
        assert_eq!(strips[3], Rect::new(width - 1, 0, width, height));
        assert!(strips.iter().all(|strip| *strip == strip.intersect(bounds)));
    }
}

#[test]
fn casting_fill_counts_down_from_full_to_empty() {
    let bounds = Rect::new(0, 0, 120, 30);
    let started = CastingLayout::new(bounds, Scale::unit(), Progress::new(0, 1), 0);
    let halfway = CastingLayout::new(bounds, Scale::unit(), Progress::new(1, 2), 0);
    let completed = CastingLayout::new(bounds, Scale::unit(), Progress::new(1, 1), 0);

    assert_eq!(started.fill, started.track);
    assert!(halfway.fill.width() < started.fill.width());
    assert!(halfway.fill.width() > completed.fill.width());
    assert_eq!(completed.fill.width(), 0);
}

#[test]
fn casting_and_timer_panels_stack_below_the_label() {
    let stack = pip_content_stack_layout(
        Rect::new(0, 0, 320, 200),
        3,
        LabelStyle::new(Scale::unit(), 48),
        100,
        Some((Progress::new(1, 2), 60, 40)),
        Some(Progress::new(1, 2)),
    );
    let casting = stack.casting.expect("casting fits");
    let timer = stack.timer.expect("timer fits");
    assert_eq!(casting.panel.top, 54);
    assert_eq!(casting.panel.bottom, 84);
    assert_eq!(casting.panel.right, 3 + 134);
    assert_eq!(timer.panel.top, 88);
    assert_eq!(stack.content_bottom, timer.panel.bottom);
}

#[test]
fn text_roles_scale_with_a_one_pixel_floor() {
    assert_eq!(UiTextRole::Timer.height(Scale::unit(), 48), 16);
    assert_eq!(UiTextRole::NotificationPreview.height(Scale::from_dpi(144), 48), 39);
    assert_eq!(UiTextRole::Toast.height(Scale::unit(), 0), 1);
    assert_eq!(UiTextRole::StatusBanner.weight(), 900);
    assert_eq!(UiTextRole::Timer.font().family, "Segoe UI");
}

#[test]
fn frame_visuals_nest_inward() {
    let frames = frame_visuals(Rect::new(0, 0, 10, 10), 2, Color { red: 1, green: 2, blue: 3 });
    assert_eq!(frames.len(), 2);
    assert_eq!(frames[1].bounds, Rect::new(1, 1, 9, 9));
    assert!(frame_visuals(Rect::new(0, 0, 10, 10), -1, Color { red: 0, green: 0, blue: 0 }).is_empty());
}

#[test]
fn hovered_windows_show_a_white_frame_and_drop_targets_a_wider_one() {
    let canvas = Rect::new(0, 0, 100, 60);
    let style = LabelStyle::new(Scale::unit(), 20);
    let mut interaction = PipInteractionScene::default();
    interaction.hovered = true;
    let hovered = pip_scene_layout(canvas, 3, style, interaction, None, None, None, 40, 0);
    assert_eq!(hovered.indicator_frames.len(), 3);
    interaction.drop_target = true;
    let drop = pip_scene_layout(canvas, 3, style, interaction, None, None, None, 40, 0);
    assert_eq!(drop.indicator_frames.len(), 4);
    interaction.drag_source = true;
    let dragged = pip_scene_layout(canvas, 3, style, interaction, None, None, None, 40, 0);
    assert_eq!(dragged.dim_overlay.map(|d| d.alpha), Some(REORDER_DIM_ALPHA));
}
