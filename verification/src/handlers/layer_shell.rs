//! Surfaces that anchor to an output rather than behaving like windows: which output one goes on,
//! when it is configured, and when it has the keyboard.
use vstd::prelude::*;

use crate::render::Layer;

verus! {

/// What is to be done, in order.
#[derive(Debug, Clone, Copy, PartialEq, Eq)]
pub enum LayerStep {
    /// Lay out the layer surfaces of an output.
    Arrange { output: u64 },
    /// Send a surface its first configure.
    Configure { surface: u64 },
    /// Tell a surface that it is finished.
    Close { surface: u64 },
    /// Take a surface out of its output's map.
    Unmap { surface: u64 },
    /// Give a surface the keyboard.
    Focus { surface: u64 },
    /// Give the topmost window the keyboard.
    FocusTopmost,
    Redraw,
}

/// The output that a new layer surface goes on, and whether one that it asked for had to be
/// passed over. An output that has gone is not honored: nothing would ever be drawn on it.
pub open spec fn chosen_output(requested: Option<u64>, live: Seq<u64>) -> (Option<u64>, bool) {
    match requested {
        Some(output) => if live.contains(output) {
            (Some(output), false)
        } else {
            (first_of(live), true)
        },
        None => (first_of(live), false),
    }
}

pub open spec fn first_of(live: Seq<u64>) -> Option<u64> {
    if live.len() > 0 {
        Some(live[0])
    } else {
        None
    }
}

fn is_live(live: &[u64], output: u64) -> (r: bool)
    ensures
        r == live@.contains(output),
{
    let mut i: usize = 0;
    while i < live.len()
        invariant
            i <= live@.len(),
            forall|j: int| 0 <= j < i ==> live@[j] != output,
        decreases live.len() - i,
    {
        if live[i] == output {
            return true;
        }
        i += 1;
    }
    false
}

/// Which output a new layer surface goes on: the one it asked for if that is still there, else
/// the first one there is; and whether one that it asked for had to be passed over.
pub fn place_layer(requested: Option<u64>, live: &[u64]) -> (chosen: (Option<u64>, bool))
    ensures
        chosen == chosen_output(requested, live@),
{
    let passed_over = match requested {
        Some(output) => !is_live(live, output),
        None => false,
    };
    if let Some(output) = requested {
        if !passed_over {
            return (Some(output), false);
        }
    }
    if live.len() > 0 {
        (Some(live[0]), passed_over)
    } else {
        (None, passed_over)
    }
}

/// A layer surface is only ever put on an output that is there.
pub proof fn a_layer_goes_on_a_live_output(requested: Option<u64>, live: Seq<u64>)
    ensures
        chosen_output(requested, live).0 matches Some(output) ==> live.contains(output),
        live.len() > 0 ==> chosen_output(requested, live).0 is Some,
{
    if live.len() > 0 {
        assert(live.contains(live[0]));
    }
}

/// What a layer surface's going away asks, where it was mapped: focus left on it would send
/// typing nowhere.
pub fn layer_destroyed(mapped: bool, surface: u64, focus: Option<u64>) -> (steps: Vec<LayerStep>)
    ensures
        steps@ == if !mapped {
            Seq::empty()
        } else if focus == Some(surface) {
            seq![LayerStep::Unmap { surface }, LayerStep::FocusTopmost, LayerStep::Redraw]
        } else {
            seq![LayerStep::Unmap { surface }, LayerStep::Redraw]
        },
{
    let mut steps: Vec<LayerStep> = Vec::new();
    if mapped {
        steps.push(LayerStep::Unmap { surface });
        if holds(focus, surface) {
            steps.push(LayerStep::FocusTopmost);
        }
        steps.push(LayerStep::Redraw);
    }
    steps
}

fn holds(focus: Option<u64>, surface: u64) -> (r: bool)
    ensures
        r == (focus == Some(surface)),
{
    match focus {
        Some(held) => held == surface,
        None => false,
    }
}

/// Each surface told that it is finished, and taken out of the map.
pub open spec fn closings(surfaces: Seq<u64>) -> Seq<LayerStep>
    decreases surfaces.len(),
{
    if surfaces.len() == 0 {
        Seq::empty()
    } else {
        closings(surfaces.drop_last()) + seq![
            LayerStep::Close { surface: surfaces.last() },
            LayerStep::Unmap { surface: surfaces.last() },
        ]
    }
}

/// Tells every layer surface of an output that is going away that it is gone, and takes them out
/// of its map.
pub fn close_layers_on(surfaces: &[u64], focus: Option<u64>) -> (steps: Vec<LayerStep>)
    ensures
        steps@ == closings(surfaces@) + if focus matches Some(held) && surfaces@.contains(held) {
            seq![LayerStep::FocusTopmost]
        } else {
            Seq::empty()
        },
{
    let mut steps: Vec<LayerStep> = Vec::new();
    let mut i: usize = 0;
    assert(surfaces@.take(0) =~= Seq::empty());
    while i < surfaces.len()
        invariant
            i <= surfaces@.len(),
            steps@ == closings(surfaces@.take(i as int)),
        decreases surfaces.len() - i,
    {
        let ghost before = steps@;
        let surface: u64 = surfaces[i];
        i += 1;
        assert(surfaces@.take(i as int).drop_last() =~= surfaces@.take(i - 1));
        steps.push(LayerStep::Close { surface });
        steps.push(LayerStep::Unmap { surface });
        assert(steps@ =~= before + seq![
            LayerStep::Close { surface },
            LayerStep::Unmap { surface },
        ]);
    }
    assert(surfaces@.take(surfaces@.len() as int) =~= surfaces@);
    if let Some(held) = focus {
        if is_live(surfaces, held) {
            steps.push(LayerStep::FocusTopmost);
        }
    }
    assert(steps@ =~= closings(surfaces@) + if focus matches Some(held) && surfaces@.contains(held) {
        seq![LayerStep::FocusTopmost]
    } else {
        Seq::empty()
    });
    steps
}

/// What a surface that asks for the keyboard outright is given: the keyboard, unless it has it.
pub fn take_exclusive_focus(exclusive: Option<u64>, focus: Option<u64>) -> (given: Option<u64>)
    ensures
        given == if exclusive is Some && focus == exclusive {
            None
        } else {
            exclusive
        },
{
    match exclusive {
        Some(surface) => {
            if holds(focus, surface) {
                None
            } else {
                exclusive
            }
        },
        None => None,
    }
}

/// What a commit on a surface asks, where it is a mapped layer surface: its output is laid out
/// before the first configure, so that a size the client asked for is respected; then a surface
/// that asked for the keyboard outright gets it.
pub open spec fn committed(
    output: Option<u64>,
    surface: u64,
    configured: bool,
    exclusive: Option<u64>,
    focus: Option<u64>,
) -> Seq<LayerStep> {
    match output {
        Some(output) => seq![LayerStep::Arrange { output }] + (if configured {
            Seq::empty()
        } else {
            seq![LayerStep::Configure { surface }]
        }) + (match exclusive {
            Some(taking) => if focus == exclusive {
                Seq::empty()
            } else {
                seq![LayerStep::Focus { surface: taking }]
            },
            None => Seq::empty(),
        }),
        None => Seq::empty(),
    }
}

/// What a commit on a surface asks; `output` is the one whose map holds it.
pub fn handle_commit(
    output: Option<u64>,
    surface: u64,
    configured: bool,
    exclusive: Option<u64>,
    focus: Option<u64>,
) -> (steps: Vec<LayerStep>)
    ensures
        steps@ == committed(output, surface, configured, exclusive, focus),
{
    let mut steps: Vec<LayerStep> = Vec::new();
    let output = match output {
        Some(output) => output,
        None => {
            return steps;
        },
    };
    steps.push(LayerStep::Arrange { output });
    if !configured {
        steps.push(LayerStep::Configure { surface });
    }
    if let Some(taking) = take_exclusive_focus(exclusive, focus) {
        steps.push(LayerStep::Focus { surface: taking });
    }
    assert(steps@ =~= committed(Some(output), surface, configured, exclusive, focus));
    steps
}

/// The layer surface under a place of an output, in each layer, and whether each takes the
/// keyboard.
#[derive(Debug, Clone, Copy, PartialEq, Eq)]
pub struct LayersUnder {
    pub overlay: Option<(u64, bool)>,
    pub top: Option<(u64, bool)>,
    pub bottom: Option<(u64, bool)>,
    pub background: Option<(u64, bool)>,
}

impl LayersUnder {
    /// The surface in a layer.
    pub open spec fn on(self, layer: Layer) -> Option<(u64, bool)> {
        match layer {
            Layer::Overlay => self.overlay,
            Layer::Top => self.top,
            Layer::Bottom => self.bottom,
            Layer::Background => self.background,
        }
    }
}

/// Whether an overlay- or top-layer surface covers a place. Those sit above every window, so a
/// press there is not for a window underneath.
pub fn layer_covers_windows_at(under: Option<LayersUnder>) -> (r: bool)
    ensures
        r == (under matches Some(u) && (u.on(Layer::Overlay) is Some || u.on(Layer::Top) is Some)),
{
    match under {
        Some(u) => u.overlay.is_some() || u.top.is_some(),
        None => false,
    }
}

/// The surface, if it takes the keyboard.
pub open spec fn willing(hit: Option<(u64, bool)>) -> Option<u64> {
    match hit {
        Some((surface, true)) => Some(surface),
        _ => None,
    }
}

/// The frontmost of the surfaces that takes the keyboard.
pub open spec fn focusable(u: LayersUnder) -> Option<u64> {
    if willing(u.overlay) is Some {
        willing(u.overlay)
    } else if willing(u.top) is Some {
        willing(u.top)
    } else if willing(u.bottom) is Some {
        willing(u.bottom)
    } else {
        willing(u.background)
    }
}

fn takes_focus(hit: Option<(u64, bool)>) -> (surface: Option<u64>)
    ensures
        surface == willing(hit),
{
    match hit {
        Some((surface, true)) => Some(surface),
        _ => None,
    }
}

/// The layer surface under a place that is willing to take the keyboard, if any. One that asked
/// not to is left alone, so an inert backdrop never takes it.
pub fn focusable_layer_under(under: Option<LayersUnder>) -> (surface: Option<u64>)
    ensures
        surface == match under {
            Some(u) => focusable(u),
            None => None,
        },
{
    let u = match under {
        Some(u) => u,
        None => {
            return None;
        },
    };
    let overlay = takes_focus(u.overlay);
    if overlay.is_some() {
        return overlay;
    }
    let top = takes_focus(u.top);
    if top.is_some() {
        return top;
    }
    let bottom = takes_focus(u.bottom);
    if bottom.is_some() {
        return bottom;
    }
    takes_focus(u.background)
}

/// A layer surface gets the output it asked for while that is there, and the first one otherwise;
/// one that asked for nothing was never passed over.
pub proof fn a_layer_goes_where_it_asked(requested: Option<u64>, live: Seq<u64>)
    ensures
        ({
            let (output, passed_over) = chosen_output(requested, live);
            &&& requested is Some && live.contains(requested->0) ==> output == requested
                && !passed_over
            &&& requested is Some && !live.contains(requested->0) ==> passed_over
            &&& requested is None ==> !passed_over
            &&& (requested is None || passed_over) && live.len() > 0 ==> output == Some(live[0])
            &&& live.len() == 0 ==> output is None
        }),
{
}

/// Every layer surface of an output that goes away is told that it is finished and then taken
/// out, in their order, and none twice.
pub proof fn each_layer_is_closed_then_taken_out(surfaces: Seq<u64>)
    ensures
        closings(surfaces).len() == 2 * surfaces.len(),
        forall|i: int|
            #![trigger surfaces[i]]
            0 <= i < surfaces.len() ==> closings(surfaces)[2 * i] == (LayerStep::Close {
                surface: surfaces[i],
            }) && closings(surfaces)[2 * i + 1] == (LayerStep::Unmap { surface: surfaces[i] }),
    decreases surfaces.len(),
{
    if surfaces.len() > 0 {
        let fewer = surfaces.drop_last();
        each_layer_is_closed_then_taken_out(fewer);
        assert forall|i: int| #![trigger surfaces[i]] 0 <= i < surfaces.len() implies closings(
            surfaces,
        )[2 * i] == (LayerStep::Close { surface: surfaces[i] }) && closings(surfaces)[2 * i + 1]
            == (LayerStep::Unmap { surface: surfaces[i] }) by {
            if i < fewer.len() {
                assert(fewer[i] == surfaces[i]);
            }
        }
    }
}

/// A commit on a mapped layer surface lays its output out before anything else; the surface is
/// sent its first configure once; the keyboard goes to a surface that asks for it outright, to no
/// other, and not to one that has it. A commit on any other surface asks for nothing.
pub proof fn a_layer_is_laid_out_first(
    output: Option<u64>,
    surface: u64,
    configured: bool,
    exclusive: Option<u64>,
    focus: Option<u64>,
)
    ensures
        ({
            let steps = committed(output, surface, configured, exclusive, focus);
            &&& output is None ==> steps.len() == 0
            &&& output matches Some(o) ==> {
                &&& steps.len() > 0 && steps[0] == (LayerStep::Arrange { output: o })
                &&& steps.contains(LayerStep::Configure { surface }) == !configured
                &&& exclusive matches Some(taking) ==> steps.contains(
                    LayerStep::Focus { surface: taking },
                ) == (focus != Some(taking))
                &&& forall|k: int|
                    0 < k < steps.len() ==> match #[trigger] steps[k] {
                        LayerStep::Configure { surface: other } => other == surface,
                        LayerStep::Focus { surface: taking } => exclusive == Some(taking),
                        _ => false,
                    }
            }
        }),
{
    let steps = committed(output, surface, configured, exclusive, focus);
    if output is Some {
        assert(steps[0] == (LayerStep::Arrange { output: output->0 }));
        if !configured {
            assert(steps[1] == (LayerStep::Configure { surface }));
        }
        if let Some(taking) = exclusive {
            if focus != exclusive {
                assert(steps.last() == (LayerStep::Focus { surface: taking }));
            }
        }
    }
}

/// How far in front a layer is.
pub open spec fn nearness(layer: Layer) -> int {
    match layer {
        Layer::Overlay => 3,
        Layer::Top => 2,
        Layer::Bottom => 1,
        Layer::Background => 0,
    }
}

/// Whether a layer holds a surface that takes the keyboard.
pub open spec fn takes_the_keyboard(u: LayersUnder, layer: Layer) -> bool {
    u.on(layer) matches Some((_, willing)) && willing
}

/// The keyboard goes to the surface that is furthest in front among those that take it, and to
/// none that does not.
pub proof fn the_frontmost_willing_layer_has_the_keyboard(u: LayersUnder, layer: Layer)
    ensures
        takes_the_keyboard(u, layer) && (forall|other: Layer|
            nearness(other) > nearness(layer) ==> !#[trigger] takes_the_keyboard(u, other))
            ==> (u.on(layer) matches Some((surface, _)) && focusable(u) == Some(surface)),
        focusable(u) is None ==> !takes_the_keyboard(u, layer),
{
    if takes_the_keyboard(u, layer) && (forall|other: Layer|
        nearness(other) > nearness(layer) ==> !#[trigger] takes_the_keyboard(u, other)) {
        assert(takes_the_keyboard(u, Layer::Overlay) ==> layer == Layer::Overlay);
        assert(takes_the_keyboard(u, Layer::Top) ==> layer == Layer::Overlay || layer
            == Layer::Top);
        assert(takes_the_keyboard(u, Layer::Bottom) ==> layer != Layer::Background);
    }
}

/// A layer surface that goes away and had the keyboard leaves it to the topmost window; one that
/// had not leaves the keyboard alone. One that was never mapped asks for nothing.
pub proof fn a_gone_layer_leaves_the_keyboard(
    mapped: bool,
    surface: u64,
    focus: Option<u64>,
    steps: Vec<LayerStep>,
)
    requires
        call_ensures(layer_destroyed, (mapped, surface, focus), steps),
    ensures
        !mapped ==> steps@.len() == 0,
        mapped ==> steps@.len() > 0 && steps@[0] == (LayerStep::Unmap { surface }),
        steps@.contains(LayerStep::FocusTopmost) <==> mapped && focus == Some(surface),
{
    if mapped && focus == Some(surface) {
        assert(steps@[1] is FocusTopmost);
    }
}

/// A surface that asks for the keyboard outright gets it, unless it has it; without such a surface
/// nobody is given it.
pub proof fn the_keyboard_is_given_to_who_asks(
    exclusive: Option<u64>,
    focus: Option<u64>,
    given: Option<u64>,
)
    requires
        call_ensures(take_exclusive_focus, (exclusive, focus), given),
    ensures
        exclusive is None ==> given is None,
        exclusive is Some && focus != exclusive ==> given == exclusive,
        exclusive is Some && focus == exclusive ==> given is None,
{
}

} // verus!
