use vstd::prelude::*;

verus! {

/// The drawing tools of the canvas.
#[derive(Debug, Clone, Copy, PartialEq, Eq, Hash, Structural)]
pub enum ToolKind {
    Select,
    Pan,
    Rectangle,
    Diamond,
    Ellipse,
    Line,
    Arrow,
    Freehand,
    Highlighter,
    Eraser,
    Text,
    Math,
    LaserPointer,
    InsertImage,
}

impl Default for ToolKind {
    fn default() -> (t: Self)
        ensures
            t == ToolKind::Select,
    {
        ToolKind::Select
    }
}

/// The kinds of shape a drag with a tool can create.
#[derive(Debug, Clone, Copy, PartialEq, Eq, Structural)]
pub enum ShapeKind {
    Rectangle,
    Diamond,
    Ellipse,
    Line,
    Arrow,
    Freehand,
    Text,
}

/// Whether the tool records a free stroke (point by point) rather than a
/// drag from one corner to another.
pub open spec fn is_stroke_tool(t: ToolKind) -> bool {
    t == ToolKind::Freehand || t == ToolKind::Highlighter
}

/// The shape a drag with tool `t` produces, given how many stroke points
/// have been recorded: the corner tools always make their shape, stroke
/// tools make a freehand shape once the stroke has two points, and the other
/// tools make nothing.
pub open spec fn shape_for(t: ToolKind, stroke_points: nat) -> Option<ShapeKind> {
    match t {
        ToolKind::Rectangle => Some(ShapeKind::Rectangle),
        ToolKind::Diamond => Some(ShapeKind::Diamond),
        ToolKind::Ellipse => Some(ShapeKind::Ellipse),
        ToolKind::Line => Some(ShapeKind::Line),
        ToolKind::Arrow => Some(ShapeKind::Arrow),
        ToolKind::Text => Some(ShapeKind::Text),
        ToolKind::Freehand | ToolKind::Highlighter => if stroke_points >= 2 {
            Some(ShapeKind::Freehand)
        } else {
            None
        },
        _ => None,
    }
}

impl ToolKind {
    /// Whether the tool records a free stroke (freehand pen, highlighter).
    pub fn is_stroke_tool(self) -> (b: bool)
        ensures
            b == is_stroke_tool(self),
    {
        match self {
            ToolKind::Freehand | ToolKind::Highlighter => true,
            _ => false,
        }
    }
}

/// The shape a drag with `tool` creates once `stroke_points` points of a
/// stroke are recorded.
pub fn created_shape(tool: ToolKind, stroke_points: usize) -> (s: Option<ShapeKind>)
    ensures
        s == shape_for(tool, stroke_points as nat),
{
    match tool {
        ToolKind::Rectangle => Some(ShapeKind::Rectangle),
        ToolKind::Diamond => Some(ShapeKind::Diamond),
        ToolKind::Ellipse => Some(ShapeKind::Ellipse),
        ToolKind::Line => Some(ShapeKind::Line),
        ToolKind::Arrow => Some(ShapeKind::Arrow),
        ToolKind::Text => Some(ShapeKind::Text),
        ToolKind::Freehand | ToolKind::Highlighter => {
            if stroke_points >= 2 {
                Some(ShapeKind::Freehand)
            } else {
                None
            }
        },
        ToolKind::Select | ToolKind::Pan | ToolKind::Eraser | ToolKind::LaserPointer
        | ToolKind::InsertImage | ToolKind::Math => None,
    }
}

/// The discrete state of the tool manager: the selected tool, whether a
/// drag is in progress (with the seed of the shape being drawn), and how
/// many points the current stroke has. Point positions and pressures are
/// kept by the caller.
pub struct ToolSession {
    pub current_tool: ToolKind,
    active_seed: Option<u32>,
    stroke_points: usize,
}

/// What a tool session holds.
pub struct ToolSessionModel {
    pub tool: ToolKind,
    pub active_seed: Option<u32>,
    pub stroke_points: nat,
}

impl View for ToolSession {
    type V = ToolSessionModel;

    closed spec fn view(&self) -> ToolSessionModel {
        ToolSessionModel {
            tool: self.current_tool,
            active_seed: self.active_seed,
            stroke_points: self.stroke_points as nat,
        }
    }
}

impl ToolSession {
    /// The Select tool, idle, with no stroke.
    pub fn new() -> (s: Self)
        ensures
            s@.tool == ToolKind::Select,
            s@.active_seed is None,
            s@.stroke_points == 0,
    {
        ToolSession { current_tool: ToolKind::Select, active_seed: None, stroke_points: 0 }
    }

    /// The selected tool.
    pub fn tool(&self) -> (t: ToolKind)
        ensures
            t == self@.tool,
    {
        self.current_tool
    }

    /// Number of points in the current stroke.
    pub fn stroke_points(&self) -> (n: usize)
        ensures
            n == self@.stroke_points,
    {
        self.stroke_points
    }

    /// Selects a tool; any drag in progress is abandoned.
    pub fn set_tool(&mut self, tool: ToolKind)
        ensures
            final(self)@.tool == tool,
            final(self)@.active_seed is None,
            final(self)@.stroke_points == old(self)@.stroke_points,
    {
        self.current_tool = tool;
        self.active_seed = None;
    }

    /// Starts a drag; the shape it makes will carry `seed`. A stroke tool
    /// starts a new stroke with the pressed point as its first point.
    pub fn begin(&mut self, seed: u32)
        ensures
            final(self)@.tool == old(self)@.tool,
            final(self)@.active_seed == Some(seed),
            final(self)@.stroke_points == (if is_stroke_tool(old(self)@.tool) {
                1
            } else {
                old(self)@.stroke_points
            }),
    {
        if self.current_tool.is_stroke_tool() {
            self.stroke_points = 1;
        }
        self.active_seed = Some(seed);
    }

    /// Records that the caller appended a point to the stroke in progress.
    /// Without a drag in progress, or with a tool that draws no stroke,
    /// nothing changes.
    pub fn add_stroke_point(&mut self)
        requires
            old(self)@.stroke_points < usize::MAX,
        ensures
            final(self)@.stroke_points == (if old(self)@.active_seed is Some && is_stroke_tool(
                old(self)@.tool,
            ) {
                old(self)@.stroke_points + 1
            } else {
                old(self)@.stroke_points
            }),
            final(self)@.tool == old(self)@.tool,
            final(self)@.active_seed == old(self)@.active_seed,
    {
        if self.active_seed.is_some() && self.current_tool.is_stroke_tool() {
            self.stroke_points = self.stroke_points + 1;
        }
    }

    /// Whether a drag is in progress.
    pub fn is_active(&self) -> (b: bool)
        ensures
            b == self@.active_seed is Some,
    {
        self.active_seed.is_some()
    }

    /// The shape that the drag in progress would make now, with its seed.
    pub fn preview(&self) -> (p: Option<(ShapeKind, u32)>)
        ensures
            p == match self@.active_seed {
                Some(seed) => match shape_for(self@.tool, self@.stroke_points) {
                    Some(k) => Some((k, seed)),
                    None => None,
                },
                None => None,
            },
    {
        match self.active_seed {
            Some(seed) => match created_shape(self.current_tool, self.stroke_points) {
                Some(k) => Some((k, seed)),
                None => None,
            },
            None => None,
        }
    }

    /// Ends the drag: returns the shape it made (with the seed given at
    /// `begin`), if any, and clears the stroke. Without a drag in progress,
    /// nothing happens.
    pub fn end(&mut self) -> (shape: Option<(ShapeKind, u32)>)
        ensures
            shape == match old(self)@.active_seed {
                Some(seed) => match shape_for(old(self)@.tool, old(self)@.stroke_points) {
                    Some(k) => Some((k, seed)),
                    None => None,
                },
                None => None,
            },
            final(self)@.active_seed is None,
            final(self)@.tool == old(self)@.tool,
            final(self)@.stroke_points == (if old(self)@.active_seed is Some {
                0
            } else {
                old(self)@.stroke_points
            }),
    {
        if self.active_seed.is_some() {
            let shape = self.preview();
            self.active_seed = None;
            self.stroke_points = 0;
            shape
        } else {
            None
        }
    }

    /// Abandons the drag in progress and clears the stroke.
    pub fn cancel(&mut self)
        ensures
            final(self)@.active_seed is None,
            final(self)@.stroke_points == 0,
            final(self)@.tool == old(self)@.tool,
    {
        self.active_seed = None;
        self.stroke_points = 0;
    }
}

/// A drag with a corner tool always produces its shape, carrying the seed
/// drawn when the drag began; with Select, Pan, Eraser, the laser pointer,
/// image insertion or the math tool it produces nothing.
pub proof fn lemma_drag_produces_shape(tool: ToolKind, seed: u32, points: nat)
    ensures
        !is_stroke_tool(tool) ==> (shape_for(tool, points) is Some <==> (tool
            != ToolKind::Select && tool != ToolKind::Pan && tool != ToolKind::Eraser && tool
            != ToolKind::LaserPointer && tool != ToolKind::InsertImage && tool != ToolKind::Math)),
        is_stroke_tool(tool) ==> (shape_for(tool, points) is Some <==> points >= 2),
{
}

/// Each corner tool draws the shape of the same name, whatever the stroke
/// count, and the two stroke tools draw freehand shapes: the Rectangle tool
/// a rectangle, the Diamond tool a diamond, the Ellipse tool an ellipse, the
/// Line tool a line, the Arrow tool an arrow, the Text tool a text box.
pub proof fn lemma_tool_draws_shape_of_its_name(points: nat)
    ensures
        shape_for(ToolKind::Rectangle, points) == Some(ShapeKind::Rectangle),
        shape_for(ToolKind::Diamond, points) == Some(ShapeKind::Diamond),
        shape_for(ToolKind::Ellipse, points) == Some(ShapeKind::Ellipse),
        shape_for(ToolKind::Line, points) == Some(ShapeKind::Line),
        shape_for(ToolKind::Arrow, points) == Some(ShapeKind::Arrow),
        shape_for(ToolKind::Text, points) == Some(ShapeKind::Text),
        points >= 2 ==> shape_for(ToolKind::Freehand, points) == Some(ShapeKind::Freehand),
        points >= 2 ==> shape_for(ToolKind::Highlighter, points) == Some(ShapeKind::Freehand),
{
}

/// Different tools never draw the same kind of shape, except the two
/// stroke tools, which both draw freehand strokes: a drawn shape tells which
/// tool (up to the stroke tools) drew it.
pub proof fn lemma_distinct_tools_draw_distinct_shapes(a: ToolKind, b: ToolKind, n: nat, m: nat)
    requires
        a != b,
        shape_for(a, n) is Some,
        shape_for(b, m) is Some,
        !(is_stroke_tool(a) && is_stroke_tool(b)),
    ensures
        shape_for(a, n) != shape_for(b, m),
{
}

} // verus!
