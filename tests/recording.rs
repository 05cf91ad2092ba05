use graphics_tree::geometry::Range;
use graphics_tree::state::{Blend, Color, DrawState, Stencil};
use graphics_tree::tree::{Command, GraphicsTree};

fn color(r: f32, g: f32, b: f32, a: f32) -> Color {
    Color::new(r.to_bits(), g.to_bits(), b.to_bits(), a.to_bits())
}

fn scalars(v: &[f32]) -> Vec<u32> {
    v.iter().map(|x| x.to_bits()).collect()
}

fn triangle() -> Vec<u32> {
    scalars(&[0.0, 0.0, 1.0, 0.0, 0.0, 1.0])
}

#[test]
fn new_log_is_empty() {
    let t: GraphicsTree<u32> = GraphicsTree::new();
    assert!(t.is_empty());
    assert!(t.commands().is_empty());
    assert!(t.vertices().is_empty());
    assert!(t.uvs().is_empty());
}

#[test]
fn draw_makes_log_non_empty_and_clear_empties_it() {
    let mut t: GraphicsTree<u32> = GraphicsTree::new();
    t.tri_list(&DrawState::new_alpha(), &color(1.0, 0.0, 0.0, 1.0), &triangle());
    assert!(!t.is_empty());
    t.clear();
    assert!(t.is_empty());
    assert!(t.commands().is_empty());
}

#[test]
fn empty_draw_still_makes_log_non_empty() {
    let mut t: GraphicsTree<u32> = GraphicsTree::new();
    t.tri_list(&DrawState::new_alpha(), &Color::transparent(), &[]);
    assert!(!t.is_empty());
    assert_eq!(t.commands().len(), 1);
    assert!(matches!(t.commands()[0], Command::Colored(Range { offset: 0, length: 0 })));
}

#[test]
fn clears_are_always_recorded() {
    let mut t: GraphicsTree<u32> = GraphicsTree::new();
    let white = color(1.0, 1.0, 1.0, 1.0);
    t.clear_color(white);
    t.clear_color(white);
    t.clear_stencil(0);
    assert_eq!(t.commands().len(), 3);
    assert!(matches!(t.commands()[0], Command::ClearColor(c) if c == white));
    assert!(matches!(t.commands()[1], Command::ClearColor(c) if c == white));
    assert!(matches!(t.commands()[2], Command::ClearStencil(0)));
    assert!(!t.is_empty());
    t.clear();
    assert!(t.is_empty());
}

#[test]
fn same_color_draws_record_one_change() {
    let mut t: GraphicsTree<u32> = GraphicsTree::new();
    let red = color(1.0, 0.0, 0.0, 1.0);
    let state = DrawState::new_alpha();
    t.tri_list(&state, &red, &triangle());
    t.tri_list(&state, &red, &triangle());
    t.tri_list(&state, &red, &scalars(&[0.0, 0.0, 2.0, 2.0]));
    let cmds = t.commands();
    assert_eq!(cmds.len(), 4);
    assert!(matches!(cmds[0], Command::ChangeColor(c) if c == red));
    assert!(matches!(cmds[1], Command::Colored(Range { offset: 0, length: 6 })));
    assert!(matches!(cmds[2], Command::Colored(Range { offset: 6, length: 6 })));
    assert!(matches!(cmds[3], Command::Colored(Range { offset: 12, length: 4 })));
    assert_eq!(t.vertices().len(), 16);
}

#[test]
fn same_non_default_state_draws_record_one_state_change() {
    let mut t: GraphicsTree<u32> = GraphicsTree::new();
    let red = color(1.0, 0.0, 0.0, 1.0);
    let state = DrawState { scissor: None, stencil: Some(Stencil::Clip(255)), blend: Some(Blend::Alpha) };
    for _ in 0..3 {
        t.tri_list(&state, &red, &triangle());
    }
    let cmds = t.commands();
    assert_eq!(cmds.len(), 5);
    assert!(matches!(cmds[0], Command::ChangeColor(c) if c == red));
    assert!(matches!(cmds[1], Command::ChangeDrawState(s) if s == state));
    assert!(matches!(cmds[2], Command::Colored(Range { offset: 0, length: 6 })));
    assert!(matches!(cmds[3], Command::Colored(Range { offset: 6, length: 6 })));
    assert!(matches!(cmds[4], Command::Colored(Range { offset: 12, length: 6 })));
}

#[test]
fn alternating_colors_record_changes_only_where_color_changes() {
    let mut t: GraphicsTree<u32> = GraphicsTree::new();
    let red = color(1.0, 0.0, 0.0, 1.0);
    let blue = color(0.0, 0.0, 1.0, 1.0);
    let state = DrawState::new_alpha();
    for c in [red, red, blue, blue] {
        t.tri_list(&state, &c, &triangle());
    }
    let cmds = t.commands();
    let changes: Vec<usize> = (0..cmds.len())
        .filter(|&i| matches!(cmds[i], Command::ChangeColor(_)))
        .collect();
    assert_eq!(changes, vec![0, 3]);
    assert_eq!(cmds.len(), 6);
    assert!(matches!(cmds[3], Command::ChangeColor(c) if c == blue));
}

#[test]
fn transparent_first_draw_records_no_color_change() {
    let mut t: GraphicsTree<u32> = GraphicsTree::new();
    t.tri_list(&DrawState::new_alpha(), &Color::transparent(), &triangle());
    assert_eq!(t.commands().len(), 1);
}

#[test]
fn colors_compare_bit_for_bit() {
    let mut t: GraphicsTree<u32> = GraphicsTree::new();
    let zero = color(0.0, 0.0, 0.0, 0.0);
    let negative_zero = color(-0.0, 0.0, 0.0, 0.0);
    t.tri_list(&DrawState::new_alpha(), &zero, &triangle());
    t.tri_list(&DrawState::new_alpha(), &negative_zero, &triangle());
    assert_eq!(t.commands().len(), 3);
    assert!(matches!(t.commands()[1], Command::ChangeColor(c) if c == negative_zero));
}

#[test]
fn textured_draw_records_both_ranges() {
    let mut t: GraphicsTree<&str> = GraphicsTree::new();
    let state = DrawState::new_alpha();
    let white = color(1.0, 1.0, 1.0, 1.0);
    t.tri_list(&state, &white, &scalars(&[0.0, 0.0]));
    t.tri_list_uv(&state, &white, "brick", &triangle(), &scalars(&[0.0, 0.0, 1.0, 0.0, 0.0, 1.0]));
    let cmds = t.commands();
    assert_eq!(cmds.len(), 3);
    assert!(matches!(
        cmds[2],
        Command::Textured("brick", Range { offset: 2, length: 6 }, Range { offset: 0, length: 6 })
    ));
    assert_eq!(t.vertices().len(), 8);
    assert_eq!(t.uvs().len(), 6);
}

#[test]
fn clear_resets_tracked_color() {
    let mut t: GraphicsTree<u32> = GraphicsTree::new();
    let red = color(1.0, 0.0, 0.0, 1.0);
    t.tri_list(&DrawState::new_alpha(), &red, &triangle());
    t.clear();
    t.tri_list(&DrawState::new_alpha(), &red, &triangle());
    assert!(matches!(t.commands()[0], Command::ChangeColor(c) if c == red));
}
