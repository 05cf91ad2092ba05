use vstd::prelude::*;

use crate::geometry::{chunk_spec, chunks, Range};
use crate::state::{Color, DrawState};

verus! {

/// One recorded drawing operation. Geometry is referenced by range into the
/// log's shared vertex and texture-coordinate buffers.
pub enum Command<H> {
    /// Clears the whole surface with a color.
    ClearColor(Color),
    /// Clears the stencil buffer with a value.
    ClearStencil(u8),
    /// Later draws use this fill color.
    ChangeColor(Color),
    /// Later draws use this draw state.
    ChangeDrawState(DrawState),
    /// An untextured triangle list: a range of the vertex buffer.
    Colored(Range),
    /// A textured triangle list: a texture, a range of the vertex buffer and
    /// a range of the texture-coordinate buffer.
    Textured(H, Range, Range),
}

/// What a command log holds, as mathematical values.
pub struct TreeModel<H> {
    pub commands: Seq<Command<H>>,
    pub vertices: Seq<u32>,
    pub uvs: Seq<u32>,
    pub color: Color,
    pub draw_state: DrawState,
}

/// The fill color in force after the commands, starting from transparent.
pub open spec fn color_after<H>(cmds: Seq<Command<H>>) -> Color
    decreases cmds.len(),
{
    if cmds.len() == 0 {
        Color::transparent_spec()
    } else {
        match cmds.last() {
            Command::ChangeColor(c) => c,
            _ => color_after(cmds.drop_last()),
        }
    }
}

/// The draw state in force after the commands, starting from the default.
pub open spec fn state_after<H>(cmds: Seq<Command<H>>) -> DrawState
    decreases cmds.len(),
{
    if cmds.len() == 0 {
        DrawState::alpha_spec()
    } else {
        match cmds.last() {
            Command::ChangeDrawState(s) => s,
            _ => state_after(cmds.drop_last()),
        }
    }
}

/// The command's ranges lie within buffers of `nv` vertex scalars and `nu`
/// texture-coordinate scalars, and a textured command's two ranges are
/// equally long.
pub open spec fn command_fits<H>(c: Command<H>, nv: int, nu: int) -> bool {
    match c {
        Command::Colored(r) => r.end() <= nv,
        Command::Textured(_, v, u) => v.end() <= nv && u.end() <= nu && v.length == u.length,
        _ => true,
    }
}

/// The state-change commands that a draw with `color` and `state` records
/// when the recorder last saw `cur_color` and `cur_state`.
pub open spec fn state_changes<H>(
    cur_color: Color,
    cur_state: DrawState,
    color: Color,
    state: DrawState,
) -> Seq<Command<H>> {
    (if color != cur_color {
        seq![Command::ChangeColor(color)]
    } else {
        Seq::empty()
    }) + (if state != cur_state {
        seq![Command::ChangeDrawState(state)]
    } else {
        Seq::empty()
    })
}

/// The log after recording a colored triangle list.
pub open spec fn record_colored<H>(
    m: TreeModel<H>,
    state: DrawState,
    color: Color,
    data: Seq<u32>,
) -> TreeModel<H> {
    TreeModel {
        commands: m.commands + state_changes(m.color, m.draw_state, color, state).push(
            Command::Colored(Range { offset: m.vertices.len() as usize, length: data.len() as usize }),
        ),
        vertices: m.vertices + data,
        uvs: m.uvs,
        color,
        draw_state: state,
    }
}

/// The log after recording a textured triangle list.
pub open spec fn record_textured<H>(
    m: TreeModel<H>,
    state: DrawState,
    color: Color,
    texture: H,
    data: Seq<u32>,
    uv_data: Seq<u32>,
) -> TreeModel<H> {
    TreeModel {
        commands: m.commands + state_changes(m.color, m.draw_state, color, state).push(
            Command::Textured(
                texture,
                Range { offset: m.vertices.len() as usize, length: data.len() as usize },
                Range { offset: m.uvs.len() as usize, length: uv_data.len() as usize },
            ),
        ),
        vertices: m.vertices + data,
        uvs: m.uvs + uv_data,
        color,
        draw_state: state,
    }
}

/// One call that a replay makes on a backend.
pub enum Call<'a, H> {
    /// Clear the surface with a color.
    ClearColor(Color),
    /// Clear the stencil buffer with a value.
    ClearStencil(u8),
    /// Draw an untextured triangle list, one backend call per chunk of the
    /// vertex buffer.
    Colored { draw_state: DrawState, color: Color, chunks: Vec<Range> },
    /// Draw a textured triangle list, one backend call per pair of chunks of
    /// the vertex and texture-coordinate buffers.
    Textured {
        draw_state: DrawState,
        color: Color,
        texture: &'a H,
        vertex_chunks: Vec<Range>,
        uv_chunks: Vec<Range>,
    },
}

/// A replay call, as mathematical values.
pub enum CallModel<H> {
    ClearColor(Color),
    ClearStencil(u8),
    Colored { draw_state: DrawState, color: Color, chunks: Seq<Range> },
    Textured {
        draw_state: DrawState,
        color: Color,
        texture: H,
        vertex_chunks: Seq<Range>,
        uv_chunks: Seq<Range>,
    },
}

impl<'a, H> View for Call<'a, H> {
    type V = CallModel<H>;

    open spec fn view(&self) -> CallModel<H> {
        match self {
            Call::ClearColor(c) => CallModel::ClearColor(*c),
            Call::ClearStencil(v) => CallModel::ClearStencil(*v),
            Call::Colored { draw_state, color, chunks } => CallModel::Colored {
                draw_state: *draw_state,
                color: *color,
                chunks: chunks@,
            },
            Call::Textured { draw_state, color, texture, vertex_chunks, uv_chunks } =>
                CallModel::Textured {
                draw_state: *draw_state,
                color: *color,
                texture: **texture,
                vertex_chunks: vertex_chunks@,
                uv_chunks: uv_chunks@,
            },
        }
    }
}

/// The models of the calls.
pub open spec fn call_models<'a, H>(calls: Seq<Call<'a, H>>) -> Seq<CallModel<H>> {
    calls.map_values(|c: Call<'a, H>| c@)
}

/// The calls that replaying the commands makes on a backend that takes at
/// most `size` scalars per call. Clears go through as they are; color and
/// draw-state changes make no call of their own but set what later draws
/// use; each range is split into chunks.
pub open spec fn replay_spec<H>(cmds: Seq<Command<H>>, size: int) -> Seq<CallModel<H>>
    decreases cmds.len(),
{
    if cmds.len() == 0 {
        Seq::empty()
    } else {
        let prev = cmds.drop_last();
        let calls = replay_spec(prev, size);
        match cmds.last() {
            Command::ClearColor(c) => calls.push(CallModel::ClearColor(c)),
            Command::ClearStencil(v) => calls.push(CallModel::ClearStencil(v)),
            Command::ChangeColor(_) => calls,
            Command::ChangeDrawState(_) => calls,
            Command::Colored(r) => calls.push(
                CallModel::Colored {
                    draw_state: state_after(prev),
                    color: color_after(prev),
                    chunks: chunk_spec(r.offset as int, r.length as int, size),
                },
            ),
            Command::Textured(h, v, u) => calls.push(
                CallModel::Textured {
                    draw_state: state_after(prev),
                    color: color_after(prev),
                    texture: h,
                    vertex_chunks: chunk_spec(v.offset as int, v.length as int, size),
                    uv_chunks: chunk_spec(u.offset as int, u.length as int, size),
                },
            ),
        }
    }
}

/// A command log that records drawing operations for later replay, merging
/// consecutive draws that share color and draw state.
pub struct GraphicsTree<H> {
    commands: Vec<Command<H>>,
    vertices: Vec<u32>,
    uvs: Vec<u32>,
    current_color: Color,
    current_draw_state: DrawState,
}

impl<H> View for GraphicsTree<H> {
    type V = TreeModel<H>;

    closed spec fn view(&self) -> TreeModel<H> {
        TreeModel {
            commands: self.commands@,
            vertices: self.vertices@,
            uvs: self.uvs@,
            color: self.current_color,
            draw_state: self.current_draw_state,
        }
    }
}

impl<H> TreeModel<H> {
    /// Every range lies within its buffer, and the color and draw state that
    /// the recorder tracks are those that a replay of the log ends with.
    pub open spec fn wf(self) -> bool {
        &&& forall|i: int|
            0 <= i < self.commands.len() ==> command_fits(
                #[trigger] self.commands[i],
                self.vertices.len() as int,
                self.uvs.len() as int,
            )
        &&& self.color == color_after(self.commands)
        &&& self.draw_state == state_after(self.commands)
    }

    /// No command, no vertex and no texture coordinate.
    pub open spec fn is_empty_spec(self) -> bool {
        self.commands.len() == 0 && self.vertices.len() == 0 && self.uvs.len() == 0
    }
}

/// The log after recording one colored triangle list per entry of `draws`,
/// all with the same color and draw state.
pub open spec fn record_all<H>(
    m: TreeModel<H>,
    state: DrawState,
    color: Color,
    draws: Seq<Seq<u32>>,
) -> TreeModel<H>
    decreases draws.len(),
{
    if draws.len() == 0 {
        m
    } else {
        record_colored(record_all(m, state, color, draws.drop_last()), state, color, draws.last())
    }
}

/// One `Colored` command per entry of `draws`, over consecutive ranges of
/// the vertex buffer from `start` on, each as long as its entry.
pub open spec fn colored_runs<H>(start: int, draws: Seq<Seq<u32>>) -> Seq<Command<H>> {
    Seq::new(
        draws.len(),
        |i: int|
            Command::Colored(
                Range {
                    offset: (start + draws.take(i).flatten_alt().len()) as usize,
                    length: draws[i].len() as usize,
                },
            ),
    )
}

/// Consecutive draws with one color and one draw state record that color
/// and that state at most once each, before the first of them (and only
/// where they differ from what the log last recorded), then one `Colored`
/// command per draw, over ranges that follow each other in the vertex buffer
/// without gap or overlap, each as long as the vertices it was given.
pub proof fn lemma_same_state_draws<H>(
    m: TreeModel<H>,
    state: DrawState,
    color: Color,
    draws: Seq<Seq<u32>>,
)
    requires
        m.vertices.len() + draws.flatten_alt().len() <= usize::MAX,
    ensures
        draws.len() > 0 ==> record_all(m, state, color, draws).commands == m.commands
            + state_changes(m.color, m.draw_state, color, state) + colored_runs(
            m.vertices.len() as int,
            draws,
        ),
        record_all(m, state, color, draws).vertices == m.vertices + draws.flatten_alt(),
        forall|i: int|
            0 <= i < draws.len() ==> (#[trigger] colored_runs::<H>(
                m.vertices.len() as int,
                draws,
            )[i])->Colored_0.length == draws[i].len(),
        forall|i: int|
            0 <= i < draws.len() - 1 ==> (#[trigger] colored_runs::<H>(
                m.vertices.len() as int,
                draws,
            )[i])->Colored_0.end() == colored_runs::<H>(
                m.vertices.len() as int,
                draws,
            )[i + 1]->Colored_0.offset,
    decreases draws.len(),
{
    let start = m.vertices.len() as int;
    let runs = colored_runs::<H>(start, draws);
    if draws.len() == 0 {
        assert(m.vertices + draws.flatten_alt() =~= m.vertices);
    } else {
        let prev_draws = draws.drop_last();
        assert(draws.flatten_alt() == prev_draws.flatten_alt() + draws.last());
        lemma_same_state_draws(m, state, color, prev_draws);
        let prev = record_all(m, state, color, prev_draws);
        let r = record_all(m, state, color, draws);
        assert(r.vertices =~= m.vertices + draws.flatten_alt());
        assert forall|i: int| 0 <= i < draws.len() - 1 implies (#[trigger] runs[i])->Colored_0.end()
            == runs[i + 1]->Colored_0.offset by {
            assert(draws.take(i + 1).drop_last() =~= draws.take(i));
            assert(draws.take(i + 1).last() == draws[i]);
            assert(draws.take(i + 1).flatten_alt().len() == draws.take(i).flatten_alt().len()
                + draws[i].len());
            lemma_flatten_alt_take_len(draws, i + 1);
        }
        let prev_runs = colored_runs::<H>(start, prev_draws);
        assert forall|i: int| 0 <= i < prev_draws.len() implies prev_runs[i] == runs[i] by {
            assert(prev_draws.take(i) =~= draws.take(i));
        }
        let n = draws.len() - 1;
        assert(draws.take(n) =~= prev_draws);
        assert(runs =~= prev_runs.push(runs[n]));
        if n == 0 {
            assert(prev == m);
            assert(draws.take(0).flatten_alt() =~= Seq::<u32>::empty());
            assert(r.commands =~= m.commands + state_changes(m.color, m.draw_state, color, state)
                + runs);
        } else {
            assert(prev.color == color);
            assert(prev.draw_state == state);
            assert(state_changes::<H>(prev.color, prev.draw_state, color, state) =~= Seq::empty());
            assert(prev.vertices.len() == start + prev_draws.flatten_alt().len());
            assert(r.commands =~= prev.commands.push(runs[n]));
            assert(r.commands =~= m.commands + state_changes(m.color, m.draw_state, color, state)
                + runs);
        }
    }
}

/// Dropping repeated color and draw-state changes loses nothing: the replay
/// of a log after a colored draw has recorded ends with one call that draws
/// the new vertices with exactly the color and the draw state the draw was
/// recorded with, and makes the calls of the earlier log before it.
pub proof fn lemma_replay_keeps_recorded_state<H>(
    m: TreeModel<H>,
    state: DrawState,
    color: Color,
    data: Seq<u32>,
    size: int,
)
    requires
        m.wf(),
        m.vertices.len() + data.len() <= usize::MAX,
    ensures
        replay_spec(record_colored(m, state, color, data).commands, size) == replay_spec(
            m.commands,
            size,
        ).push(
            CallModel::Colored {
                draw_state: state,
                color,
                chunks: chunk_spec(m.vertices.len() as int, data.len() as int, size),
            },
        ),
{
    let draw = Command::<H>::Colored(
        Range { offset: m.vertices.len() as usize, length: data.len() as usize },
    );
    lemma_changes_then_draw(m, color, state, draw);
    let changes = state_changes::<H>(m.color, m.draw_state, color, state);
    let cmds = m.commands + changes;
    let r = record_colored(m, state, color, data);
    assert(r.commands == cmds.push(draw));
    assert(r.commands.drop_last() =~= cmds);
    if color != m.color {
        assert((m.commands.push(Command::ChangeColor(color))).drop_last() =~= m.commands);
    }
    let c1 = if color != m.color {
        m.commands.push(Command::ChangeColor(color))
    } else {
        m.commands
    };
    assert(replay_spec(c1, size) == replay_spec(m.commands, size));
    if state != m.draw_state {
        assert(c1.push(Command::ChangeDrawState(state)).drop_last() =~= c1);
        assert(cmds =~= c1.push(Command::ChangeDrawState(state)));
    } else {
        assert(cmds =~= c1);
    }
    assert(replay_spec(cmds, size) == replay_spec(m.commands, size));
}

proof fn lemma_flatten_alt_take_len(draws: Seq<Seq<u32>>, k: int)
    requires
        0 <= k <= draws.len(),
    ensures
        draws.take(k).flatten_alt().len() <= draws.flatten_alt().len(),
    decreases draws.len() - k,
{
    if k < draws.len() {
        lemma_flatten_alt_take_len(draws, k + 1);
        assert(draws.take(k + 1).drop_last() =~= draws.take(k));
    } else {
        assert(draws.take(k) =~= draws);
    }
}

proof fn lemma_changes_then_draw<H>(
    m: TreeModel<H>,
    color: Color,
    state: DrawState,
    draw: Command<H>,
)
    requires
        m.color == color_after(m.commands),
        m.draw_state == state_after(m.commands),
        !(draw is ChangeColor),
        !(draw is ChangeDrawState),
    ensures
        ({
            let cmds = m.commands + state_changes(m.color, m.draw_state, color, state);
            &&& color_after(cmds) == color
            &&& state_after(cmds) == state
            &&& color_after(cmds.push(draw)) == color
            &&& state_after(cmds.push(draw)) == state
        }),
{
    let c1 = if color != m.color {
        m.commands.push(Command::ChangeColor(color))
    } else {
        m.commands
    };
    let ch1: Seq<Command<H>> = if color != m.color {
        seq![Command::ChangeColor(color)]
    } else {
        Seq::empty()
    };
    assert(m.commands + ch1 =~= c1);
    if color != m.color {
        assert(c1.drop_last() =~= m.commands);
    }
    assert(color_after(c1) == color);
    assert(state_after(c1) == m.draw_state);
    let c2 = if state != m.draw_state {
        c1.push(Command::ChangeDrawState(state))
    } else {
        c1
    };
    let cmds = m.commands + state_changes(m.color, m.draw_state, color, state);
    assert(cmds =~= c2);
    if state != m.draw_state {
        assert(c2.drop_last() =~= c1);
    }
    assert(color_after(c2) == color);
    assert(state_after(c2) == state);
    assert(cmds.push(draw).drop_last() =~= cmds);
    assert(color_after(cmds.push(draw)) == color_after(cmds));
    assert(state_after(cmds.push(draw)) == state_after(cmds));
}

fn append(buf: &mut Vec<u32>, data: &[u32])
    requires
        old(buf)@.len() + data@.len() <= usize::MAX,
    ensures
        final(buf)@ == old(buf)@ + data@,
{
    let mut i: usize = 0;
    while i < data.len()
        invariant
            0 <= i <= data@.len(),
            old(buf)@.len() + data@.len() <= usize::MAX,
            buf@ == old(buf)@ + data@.take(i as int),
        decreases data@.len() - i,
    {
        buf.push(data[i]);
        i = i + 1;
        assert(buf@ =~= old(buf)@ + data@.take(i as int));
    }
    assert(data@.take(i as int) =~= data@);
}

impl<H> GraphicsTree<H> {
    /// Creates an empty command log.
    pub fn new() -> (t: GraphicsTree<H>)
        ensures
            t@.wf(),
            t@.is_empty_spec(),
            t@.color == Color::transparent_spec(),
            t@.draw_state == DrawState::alpha_spec(),
    {
        GraphicsTree {
            commands: Vec::new(),
            vertices: Vec::new(),
            uvs: Vec::new(),
            current_color: Color::transparent(),
            current_draw_state: DrawState::new_alpha(),
        }
    }

    /// Whether the log holds no command, no vertex and no texture coordinate.
    pub fn is_empty(&self) -> (r: bool)
        ensures
            r == self@.is_empty_spec(),
    {
        self.commands.len() == 0 && self.vertices.len() == 0 && self.uvs.len() == 0
    }

    /// Forgets every recorded command and all geometry, and starts tracking
    /// color and draw state afresh, as a new log would.
    pub fn clear(&mut self)
        ensures
            final(self)@.wf(),
            final(self)@.is_empty_spec(),
            final(self)@.color == Color::transparent_spec(),
            final(self)@.draw_state == DrawState::alpha_spec(),
    {
        self.commands.clear();
        self.vertices.clear();
        self.uvs.clear();
        self.current_color = Color::transparent();
        self.current_draw_state = DrawState::new_alpha();
    }

    /// The recorded commands, in order.
    pub fn commands(&self) -> (r: &Vec<Command<H>>)
        ensures
            r@ == self@.commands,
    {
        &self.commands
    }

    /// The shared vertex buffer, two scalars per vertex.
    pub fn vertices(&self) -> (r: &Vec<u32>)
        ensures
            r@ == self@.vertices,
    {
        &self.vertices
    }

    /// The shared texture-coordinate buffer, two scalars per vertex.
    pub fn uvs(&self) -> (r: &Vec<u32>)
        ensures
            r@ == self@.uvs,
    {
        &self.uvs
    }

    /// Records a clear of the whole surface, always.
    pub fn clear_color(&mut self, color: Color)
        requires
            old(self)@.wf(),
        ensures
            final(self)@ == (TreeModel {
                commands: old(self)@.commands.push(Command::ClearColor(color)),
                ..old(self)@
            }),
            final(self)@.wf(),
    {
        self.commands.push(Command::ClearColor(color));
        proof {
            let cmds = self@.commands;
            assert(cmds.drop_last() =~= old(self)@.commands);
            assert forall|i: int| 0 <= i < cmds.len() implies command_fits(
                #[trigger] cmds[i],
                self@.vertices.len() as int,
                self@.uvs.len() as int,
            ) by {
                if i < cmds.len() - 1 {
                    assert(cmds[i] == old(self)@.commands[i]);
                }
            }
        }
    }

    /// Records a clear of the stencil buffer, always.
    pub fn clear_stencil(&mut self, value: u8)
        requires
            old(self)@.wf(),
        ensures
            final(self)@ == (TreeModel {
                commands: old(self)@.commands.push(Command::ClearStencil(value)),
                ..old(self)@
            }),
            final(self)@.wf(),
    {
        self.commands.push(Command::ClearStencil(value));
        proof {
            let cmds = self@.commands;
            assert(cmds.drop_last() =~= old(self)@.commands);
            assert forall|i: int| 0 <= i < cmds.len() implies command_fits(
                #[trigger] cmds[i],
                self@.vertices.len() as int,
                self@.uvs.len() as int,
            ) by {
                if i < cmds.len() - 1 {
                    assert(cmds[i] == old(self)@.commands[i]);
                }
            }
        }
    }

    /// Records an untextured triangle list of `vertices` (two scalars per
    /// vertex) with `color` and `draw_state`. A color or draw-state change is
    /// recorded first, each only when it differs from the last one recorded.
    pub fn tri_list(&mut self, draw_state: &DrawState, color: &Color, vertices: &[u32])
        requires
            old(self)@.wf(),
            old(self)@.vertices.len() + vertices@.len() <= usize::MAX,
        ensures
            final(self)@ == record_colored(old(self)@, *draw_state, *color, vertices@),
            final(self)@.wf(),
            !final(self)@.is_empty_spec(),
    {
        self.change_state(draw_state, color);
        let ghost mid = self@;
        let start = self.vertices.len();
        append(&mut self.vertices, vertices);
        let length = self.vertices.len() - start;
        self.commands.push(Command::Colored(Range::new(start, length)));
        proof {
            let m = self@;
            let draw = Command::<H>::Colored(Range::new_spec(start, length));
            lemma_changes_then_draw(old(self)@, *color, *draw_state, draw);
            assert(m.commands =~= mid.commands.push(draw));
            assert forall|i: int| 0 <= i < m.commands.len() implies command_fits(
                #[trigger] m.commands[i],
                m.vertices.len() as int,
                m.uvs.len() as int,
            ) by {
                if i < old(self)@.commands.len() {
                    assert(m.commands[i] == old(self)@.commands[i]);
                }
            }
            assert(m =~= record_colored(old(self)@, *draw_state, *color, vertices@));
        }
    }

    /// Records a textured triangle list of `vertices` and their texture
    /// coordinates `uvs` (two scalars per vertex each) with `color`,
    /// `draw_state` and `texture`. A color or draw-state change is recorded
    /// first, each only when it differs from the last one recorded.
    pub fn tri_list_uv(
        &mut self,
        draw_state: &DrawState,
        color: &Color,
        texture: H,
        vertices: &[u32],
        uvs: &[u32],
    )
        requires
            old(self)@.wf(),
            vertices@.len() == uvs@.len(),
            old(self)@.vertices.len() + vertices@.len() <= usize::MAX,
            old(self)@.uvs.len() + uvs@.len() <= usize::MAX,
        ensures
            final(self)@ == record_textured(old(self)@, *draw_state, *color, texture, vertices@, uvs@),
            final(self)@.wf(),
            !final(self)@.is_empty_spec(),
    {
        self.change_state(draw_state, color);
        let ghost mid = self@;
        let start_vertices = self.vertices.len();
        let start_uvs = self.uvs.len();
        append(&mut self.vertices, vertices);
        append(&mut self.uvs, uvs);
        let vertex_range = Range::new(start_vertices, self.vertices.len() - start_vertices);
        let uv_range = Range::new(start_uvs, self.uvs.len() - start_uvs);
        let ghost draw = Command::<H>::Textured(texture, vertex_range, uv_range);
        self.commands.push(Command::Textured(texture, vertex_range, uv_range));
        proof {
            let m = self@;
            lemma_changes_then_draw(old(self)@, *color, *draw_state, draw);
            assert(m.commands =~= mid.commands.push(draw));
            assert forall|i: int| 0 <= i < m.commands.len() implies command_fits(
                #[trigger] m.commands[i],
                m.vertices.len() as int,
                m.uvs.len() as int,
            ) by {
                if i < old(self)@.commands.len() {
                    assert(m.commands[i] == old(self)@.commands[i]);
                }
            }
            assert(m =~= record_textured(
                old(self)@,
                *draw_state,
                *color,
                texture,
                vertices@,
                uvs@,
            ));
        }
    }

    /// The calls that replaying the log makes on a backend that takes at most
    /// `max_vertices` vertices (twice as many scalars) per call, in order.
    pub fn draw_calls<'a>(&'a self, max_vertices: usize) -> (r: Vec<Call<'a, H>>)
        requires
            self@.wf(),
            0 < max_vertices,
            2 * max_vertices <= usize::MAX,
        ensures
            call_models(r@) == replay_spec(self@.commands, 2 * max_vertices),
    {
        let size = 2 * max_vertices;
        let nv = self.vertices.len();
        let nu = self.uvs.len();
        let mut color = Color::transparent();
        let mut draw_state = DrawState::new_alpha();
        let mut calls: Vec<Call<'a, H>> = Vec::new();
        let mut i: usize = 0;
        while i < self.commands.len()
            invariant
                self@.wf(),
                0 <= i <= self@.commands.len(),
                size == 2 * max_vertices,
                size > 0,
                nv == self@.vertices.len(),
                nu == self@.uvs.len(),
                color == color_after(self@.commands.take(i as int)),
                draw_state == state_after(self@.commands.take(i as int)),
                call_models(calls@) == replay_spec(self@.commands.take(i as int), size as int),
            decreases self@.commands.len() - i,
        {
            let ghost prev = self@.commands.take(i as int);
            let ghost next = self@.commands.take(i + 1);
            assert(next.drop_last() =~= prev);
            assert(command_fits(self@.commands[i as int], nv as int, nu as int));
            let ghost calls0 = calls@;
            match &self.commands[i] {
                Command::ClearColor(c) => calls.push(Call::ClearColor(*c)),
                Command::ClearStencil(v) => calls.push(Call::ClearStencil(*v)),
                Command::ChangeColor(c) => color = *c,
                Command::ChangeDrawState(s) => draw_state = *s,
                Command::Colored(r) => {
                    let chunks = chunks(*r, size);
                    calls.push(Call::Colored { draw_state, color, chunks });
                },
                Command::Textured(h, v, u) => {
                    let vertex_chunks = chunks(*v, size);
                    let uv_chunks = chunks(*u, size);
                    calls.push(Call::Textured { draw_state, color, texture: h, vertex_chunks, uv_chunks });
                },
            }
            assert(call_models(calls@) =~= replay_spec(next, size as int));
            i = i + 1;
        }
        assert(self@.commands.take(i as int) =~= self@.commands);
        calls
    }

    fn change_state(&mut self, draw_state: &DrawState, color: &Color)
        requires
            old(self)@.wf(),
        ensures
            final(self)@ == (TreeModel {
                commands: old(self)@.commands + state_changes(
                    old(self)@.color,
                    old(self)@.draw_state,
                    *color,
                    *draw_state,
                ),
                color: *color,
                draw_state: *draw_state,
                ..old(self)@
            }),
    {
        let ghost cmds0 = self@.commands;
        if *color != self.current_color {
            self.commands.push(Command::ChangeColor(*color));
            self.current_color = *color;
        }
        let ghost cmds1 = self@.commands;
        if *draw_state != self.current_draw_state {
            self.commands.push(Command::ChangeDrawState(*draw_state));
            self.current_draw_state = *draw_state;
        }
        proof {
            let ch: Seq<Command<H>> = state_changes(
                old(self)@.color,
                old(self)@.draw_state,
                *color,
                *draw_state,
            );
            assert(self@.commands =~= cmds0 + ch);
        }
    }
}

} // verus!
