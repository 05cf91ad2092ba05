use graphics_tree::geometry::{chunks, Range};
use graphics_tree::state::{Color, DrawState};
use graphics_tree::tree::{Call, Command, GraphicsTree};

fn color(r: f32, g: f32, b: f32, a: f32) -> Color {
    Color::new(r.to_bits(), g.to_bits(), b.to_bits(), a.to_bits())
}

fn gather(buf: &[u32], rs: &[Range]) -> Vec<u32> {
    let mut out = Vec::new();
    for r in rs {
        out.extend_from_slice(&buf[r.offset..r.offset + r.length]);
    }
    out
}

#[test]
fn empty_range_gives_no_chunk() {
    assert!(chunks(Range::new(5, 0), 4).is_empty());
}

#[test]
fn range_of_one_chunk_size_gives_one_chunk() {
    assert_eq!(chunks(Range::new(3, 4), 4), vec![Range::new(3, 4)]);
}

#[test]
fn remainder_is_its_own_chunk() {
    assert_eq!(chunks(Range::new(3, 5), 4), vec![Range::new(3, 4), Range::new(7, 1)]);
}

#[test]
fn chunks_rebuild_the_range() {
    let buf: Vec<u32> = (0..100).collect();
    for length in [0usize, 1, 9, 10, 11, 37, 90] {
        let cs = chunks(Range::new(7, length), 10);
        assert_eq!(cs.len(), (length + 9) / 10);
        assert_eq!(cs.iter().map(|r| r.length).sum::<usize>(), length);
        assert!(cs.iter().all(|r| r.length >= 1 && r.length <= 10));
        assert_eq!(gather(&buf, &cs), buf[7..7 + length].to_vec());
    }
}

#[test]
fn long_draw_is_split_by_backend_limit() {
    let mut t: GraphicsTree<u32> = GraphicsTree::new();
    let vertices: Vec<u32> = (0..14).collect();
    t.tri_list(&DrawState::new_alpha(), &Color::transparent(), &vertices);
    let calls = t.draw_calls(3);
    assert_eq!(calls.len(), 1);
    match &calls[0] {
        Call::Colored { chunks, .. } => {
            assert_eq!(chunks, &vec![Range::new(0, 6), Range::new(6, 6), Range::new(12, 2)]);
            assert_eq!(gather(t.vertices(), chunks), vertices);
        }
        _ => panic!("expected a colored call"),
    }
}

#[test]
fn replay_starts_transparent_with_default_state() {
    let mut t: GraphicsTree<u32> = GraphicsTree::new();
    t.tri_list(&DrawState::new_alpha(), &Color::transparent(), &[0, 0]);
    let calls = t.draw_calls(10);
    assert!(matches!(
        &calls[0],
        Call::Colored { draw_state, color, .. }
            if *draw_state == DrawState::new_alpha() && *color == Color::transparent()
    ));
}

#[test]
fn end_to_end_record_and_replay() {
    let white = color(1.0, 1.0, 1.0, 1.0);
    let red = color(1.0, 0.0, 0.0, 1.0);
    let state = DrawState::new_alpha();
    let tri: Vec<u32> = [0.0f32, 0.0, 1.0, 0.0, 0.0, 1.0].iter().map(|x| x.to_bits()).collect();
    let mut t: GraphicsTree<&str> = GraphicsTree::new();
    t.clear_color(white);
    t.tri_list(&state, &red, &tri);
    t.tri_list_uv(&state, &red, "T", &tri, &tri);

    let cmds = t.commands();
    assert_eq!(cmds.len(), 4);
    assert!(matches!(cmds[0], Command::ClearColor(c) if c == white));
    assert!(matches!(cmds[1], Command::ChangeColor(c) if c == red));
    assert!(matches!(cmds[2], Command::Colored(Range { length: 6, .. })));
    assert!(matches!(
        cmds[3],
        Command::Textured("T", Range { length: 6, .. }, Range { length: 6, .. })
    ));

    let calls = t.draw_calls(1023);
    assert_eq!(calls.len(), 3);
    assert!(matches!(calls[0], Call::ClearColor(c) if c == white));
    match &calls[1] {
        Call::Colored { color, chunks, .. } => {
            assert_eq!(*color, red);
            assert_eq!(chunks, &vec![Range::new(0, 6)]);
        }
        _ => panic!("expected a colored call"),
    }
    match &calls[2] {
        Call::Textured { color, texture, vertex_chunks, uv_chunks, .. } => {
            assert_eq!(*color, red);
            assert_eq!(**texture, "T");
            assert_eq!(vertex_chunks, &vec![Range::new(6, 6)]);
            assert_eq!(uv_chunks, &vec![Range::new(0, 6)]);
        }
        _ => panic!("expected a textured call"),
    }
}

#[test]
fn stencil_clear_and_state_changes_replay_in_order() {
    let mut t: GraphicsTree<u32> = GraphicsTree::new();
    let blue = color(0.0, 0.0, 1.0, 1.0);
    t.clear_stencil(7);
    t.tri_list(&DrawState::new_alpha(), &blue, &[1, 2]);
    t.tri_list(&DrawState::new_alpha(), &Color::transparent(), &[3, 4]);
    let calls = t.draw_calls(1);
    assert_eq!(calls.len(), 3);
    assert!(matches!(calls[0], Call::ClearStencil(7)));
    assert!(matches!(&calls[1], Call::Colored { color, .. } if *color == blue));
    assert!(matches!(&calls[2], Call::Colored { color, chunks, .. }
        if *color == Color::transparent() && chunks == &vec![Range::new(2, 2)]));
}
