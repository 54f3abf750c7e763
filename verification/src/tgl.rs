use vstd::prelude::*;

verus! {

/// Drawing layer; the host keeps one draw queue per layer and draws them
/// in this order, floor first.
#[derive(Clone, Copy, Debug, PartialEq, Eq, Structural)]
pub enum Layer {
    Floor,
    Middle,
    Ceil,
}

/// Position of a layer in the host's array of draw queues.
pub open spec fn layer_index_spec(layer: Layer) -> nat {
    match layer {
        Layer::Floor => 0,
        Layer::Middle => 1,
        Layer::Ceil => 2,
    }
}

impl Layer {
    /// Number of layers: one more than the index of the last layer, `Ceil`.
    pub fn size() -> (n: usize)
        ensures
            n == layer_index_spec(Layer::Ceil) + 1,
    {
        Layer::Ceil.index() as usize + 1
    }

    /// Index of this layer's draw queue on the host side.
    pub fn index(self) -> (i: u32)
        ensures
            i == layer_index_spec(self),
    {
        match self {
            Layer::Floor => 0,
            Layer::Middle => 1,
            Layer::Ceil => 2,
        }
    }
}

/// Every layer names one of the `Layer::size()` queues that the host creates,
/// and distinct layers name distinct queues.
pub proof fn lemma_layer_index_in_range(a: Layer, b: Layer)
    ensures
        layer_index_spec(a) < layer_index_spec(Layer::Ceil) + 1,
        layer_index_spec(a) == layer_index_spec(b) <==> a == b,
{
}

/// Horizontal text alignment, as the canvas `textAlign` property names it.
#[derive(Clone, Copy, Debug, PartialEq, Eq, Structural)]
pub enum Align {
    Start,
    End,
    Left,
    Right,
    Center,
}

/// Code of an alignment in the host's table of `textAlign` names.
pub open spec fn align_index_spec(align: Align) -> nat {
    match align {
        Align::Start => 0,
        Align::End => 1,
        Align::Left => 2,
        Align::Right => 3,
        Align::Center => 4,
    }
}

/// Number of entries in the host's table of `textAlign` names.
pub const ALIGN_COUNT: u32 = 5;

impl Align {
    /// Code the host uses to look this alignment up.
    pub fn index(self) -> (i: u32)
        ensures
            i == align_index_spec(self),
    {
        match self {
            Align::Start => 0,
            Align::End => 1,
            Align::Left => 2,
            Align::Right => 3,
            Align::Center => 4,
        }
    }
}

/// Text baseline, as the canvas `textBaseline` property names it.
#[derive(Clone, Copy, Debug, PartialEq, Eq, Structural)]
pub enum Baseline {
    Top,
    Hanging,
    Middle,
    Alphabetic,
    Ideographic,
    Bottom,
}

/// Code of a baseline in the host's table of `textBaseline` names.
pub open spec fn baseline_index_spec(baseline: Baseline) -> nat {
    match baseline {
        Baseline::Top => 0,
        Baseline::Hanging => 1,
        Baseline::Middle => 2,
        Baseline::Alphabetic => 3,
        Baseline::Ideographic => 4,
        Baseline::Bottom => 5,
    }
}

/// Number of entries in the host's table of `textBaseline` names.
pub const BASELINE_COUNT: u32 = 6;

impl Baseline {
    /// Code the host uses to look this baseline up.
    pub fn index(self) -> (i: u32)
        ensures
            i == baseline_index_spec(self),
    {
        match self {
            Baseline::Top => 0,
            Baseline::Hanging => 1,
            Baseline::Middle => 2,
            Baseline::Alphabetic => 3,
            Baseline::Ideographic => 4,
            Baseline::Bottom => 5,
        }
    }
}

/// Every alignment and baseline code falls inside the host's name tables,
/// and the codes tell the values apart.
pub proof fn lemma_text_codes_in_range(a: Align, b: Align, c: Baseline, d: Baseline)
    ensures
        align_index_spec(a) < ALIGN_COUNT,
        baseline_index_spec(c) < BASELINE_COUNT,
        align_index_spec(a) == align_index_spec(b) <==> a == b,
        baseline_index_spec(c) == baseline_index_spec(d) <==> c == d,
{
}

/// Handle on the host's canvas renderer. The drawing itself happens on the
/// host side; this value stands for a renderer that has been set up.
pub struct Graphics;

impl Graphics {
    /// Sets up the renderer handle; the host then creates `Layer::size()`
    /// draw queues.
    pub fn initialize() -> (g: Graphics)
        ensures
            g == Graphics,
    {
        Graphics
    }
}

} // verus!
