//! The layers of a map, one on top of the other.

use vstd::prelude::*;
use vstd::string::StringExecFns;
use crate::input::CursorIcon;
use crate::input::PointerInput;
use crate::layers::command_views;
use crate::layers::DrawCommand;
use crate::layers::DrawCommandView;
use crate::layers::Layer;
use crate::layers::area::AreaLayer;
use crate::layers::drawing::DrawingLayer;
use crate::layers::text::TextLayer;
use crate::projection::MapProjection;

verus! {

/// A layer of one of the kinds that take input and edit shapes.
pub enum AnyLayer {
    /// A layer of polygons and circles.
    Area(AreaLayer),
    /// A layer of freehand lines.
    Drawing(DrawingLayer),
    /// A layer of texts.
    Text(TextLayer),
}

impl Layer for AnyLayer {
    open spec fn layer_wf(&self) -> bool {
        match *self {
            AnyLayer::Area(l) => l.layer_wf(),
            AnyLayer::Drawing(l) => l.layer_wf(),
            AnyLayer::Text(l) => l.layer_wf(),
        }
    }

    /// A layer stays of its kind, and changes as its kind says.
    open spec fn stepped(&self, after: &Self, input: PointerInput, projection: MapProjection, handled: bool) -> bool {
        match (*self, *after) {
            (AnyLayer::Area(a), AnyLayer::Area(b)) => a.stepped(&b, input, projection, handled),
            (AnyLayer::Drawing(a), AnyLayer::Drawing(b)) => a.stepped(&b, input, projection, handled),
            (AnyLayer::Text(a), AnyLayer::Text(b)) => a.stepped(&b, input, projection, handled),
            _ => false,
        }
    }

    open spec fn drawn(&self, projection: MapProjection) -> Seq<DrawCommandView> {
        match *self {
            AnyLayer::Area(l) => l.drawn(projection),
            AnyLayer::Drawing(l) => l.drawn(projection),
            AnyLayer::Text(l) => l.drawn(projection),
        }
    }

    fn handle_input(&mut self, input: &PointerInput, projection: &MapProjection) -> (handled: bool) {
        match self {
            AnyLayer::Area(l) => l.handle_input(input, projection),
            AnyLayer::Drawing(l) => l.handle_input(input, projection),
            AnyLayer::Text(l) => l.handle_input(input, projection),
        }
    }

    fn draw(&self, projection: &MapProjection) -> (commands: Vec<DrawCommand>) {
        match self {
            AnyLayer::Area(l) => l.draw(projection),
            AnyLayer::Drawing(l) => l.draw(projection),
            AnyLayer::Text(l) => l.draw(projection),
        }
    }
}

impl AnyLayer {
    /// The shape that a layer of this kind gives the pointer, if any.
    pub open spec fn cursor_spec(&self, input: PointerInput, projection: MapProjection) -> Option<CursorIcon> {
        match *self {
            AnyLayer::Area(l) => l.cursor_spec(input, projection),
            AnyLayer::Drawing(l) => l.cursor_spec(input),
            AnyLayer::Text(l) => l.cursor_spec(input, projection),
        }
    }

    /// Tests whether the layer is well formed.
    pub fn is_valid(&self) -> (r: bool)
        ensures
            r == self.layer_wf(),
    {
        match self {
            AnyLayer::Area(l) => l.is_valid(),
            AnyLayer::Drawing(l) => l.is_valid(),
            AnyLayer::Text(l) => l.is_valid(),
        }
    }

    /// The shape that the layer gives the pointer, if any.
    pub fn cursor_icon(&self, input: &PointerInput, projection: &MapProjection) -> (icon: Option<CursorIcon>)
        requires
            self.layer_wf(),
            input.wf(),
            projection.wf(),
        ensures
            icon == self.cursor_spec(*input, *projection),
    {
        match self {
            AnyLayer::Area(l) => l.cursor_icon(input, projection),
            AnyLayer::Drawing(l) => l.cursor_icon(input),
            AnyLayer::Text(l) => l.cursor_icon(input, projection),
        }
    }
}

/// The shape that the first `top` layers give the pointer: that of the topmost
/// layer that gives one.
pub open spec fn cursor_among(
    layers: Seq<(String, AnyLayer)>,
    input: PointerInput,
    projection: MapProjection,
    top: int,
) -> Option<CursorIcon>
    decreases top,
{
    if top <= 0 {
        None
    } else {
        match layers[top - 1].1.cursor_spec(input, projection) {
            Some(icon) => Some(icon),
            None => cursor_among(layers, input, projection, top - 1),
        }
    }
}

/// Whether `after` is what a frame's input leaves of the first `top` layers of
/// `before`, and `handled` whether one of them took it.
///
/// The input is offered to the layers from the topmost down. The first layer
/// that takes it ends the offer: the layers below it do not see the input and
/// stay as they are. A layer that does not take it may still have changed.
pub open spec fn offered(
    before: Seq<(String, AnyLayer)>,
    after: Seq<(String, AnyLayer)>,
    input: PointerInput,
    projection: MapProjection,
    handled: bool,
    top: int,
) -> bool
    decreases top,
{
    if top <= 0 {
        !handled
    } else {
        ||| (handled && before[top - 1].1.stepped(&after[top - 1].1, input, projection, true) && forall|j: int|
            0 <= j < top - 1 ==> #[trigger] after[j] == before[j])
        ||| (before[top - 1].1.stepped(&after[top - 1].1, input, projection, false) && offered(
            before,
            after,
            input,
            projection,
            handled,
            top - 1,
        ))
    }
}

/// What the first `n` layers paint, from the lowest up.
pub open spec fn drawn_layers(layers: Seq<(String, AnyLayer)>, projection: MapProjection, n: int) -> Seq<
    DrawCommandView,
>
    decreases n,
{
    if n <= 0 {
        Seq::empty()
    } else {
        drawn_layers(layers, projection, n - 1) + layers[n - 1].1.drawn(projection)
    }
}

/// The names of the layers, in order.
pub open spec fn layer_names(layers: Seq<(String, AnyLayer)>) -> Seq<Seq<char>> {
    layers.map_values(|l: (String, AnyLayer)| l.0@)
}

/// The layers of a map under their names, from the lowest to the topmost.
pub struct LayerStack {
    /// The layers with their names.
    pub layers: Vec<(String, AnyLayer)>,
}

impl LayerStack {
    /// Whether every layer is well formed.
    pub open spec fn wf(&self) -> bool {
        forall|i: int| 0 <= i < self.layers@.len() ==> (#[trigger] self.layers@[i]).1.layer_wf()
    }

    /// No layers.
    pub fn new() -> (stack: Self)
        ensures
            stack.layers@.len() == 0,
            stack.wf(),
    {
        LayerStack { layers: Vec::new() }
    }

    /// Adds a layer on top of the others, under the name `name`.
    pub fn add_layer(&mut self, name: String, layer: AnyLayer)
        requires
            old(self).wf(),
            layer.layer_wf(),
        ensures
            final(self).wf(),
            final(self).layers@ == old(self).layers@.push((name, layer)),
    {
        self.layers.push((name, layer));
    }

    /// The place of the lowest layer with the name `name`.
    pub fn position(&self, name: &str) -> (r: Option<usize>)
        ensures
            match r {
                Some(i) => i < self.layers@.len() && self.layers@[i as int].0@ == name@ && forall|j: int|
                    0 <= j < i ==> (#[trigger] self.layers@[j]).0@ != name@,
                None => forall|j: int| 0 <= j < self.layers@.len() ==> (#[trigger] self.layers@[j]).0@ != name@,
            },
    {
        let wanted: String = String::from_str(name);
        let mut i: usize = 0;
        while i < self.layers.len()
            invariant
                i <= self.layers@.len(),
                wanted@ == name@,
                forall|j: int| 0 <= j < i ==> (#[trigger] self.layers@[j]).0@ != name@,
            decreases self.layers@.len() - i,
        {
            if self.layers[i].0 == wanted {
                return Some(i);
            }
            i = i + 1;
        }
        None
    }

    /// Tests whether every layer is well formed.
    pub fn is_valid(&self) -> (r: bool)
        ensures
            r == self.wf(),
    {
        let mut i: usize = 0;
        while i < self.layers.len()
            invariant
                i <= self.layers@.len(),
                forall|k: int| 0 <= k < i ==> (#[trigger] self.layers@[k]).1.layer_wf(),
            decreases self.layers@.len() - i,
        {
            if !self.layers[i].1.is_valid() {
                return false;
            }
            i = i + 1;
        }
        true
    }

    /// The shape that the layers give the pointer: that of the topmost layer
    /// that gives one.
    pub fn cursor_icon(&self, input: &PointerInput, projection: &MapProjection) -> (icon: Option<CursorIcon>)
        requires
            self.wf(),
            input.wf(),
            projection.wf(),
        ensures
            icon == cursor_among(self.layers@, *input, *projection, self.layers@.len() as int),
    {
        let mut idx: usize = self.layers.len();
        while idx > 0
            invariant
                self.wf(),
                input.wf(),
                projection.wf(),
                idx <= self.layers@.len(),
                cursor_among(self.layers@, *input, *projection, self.layers@.len() as int) == cursor_among(
                    self.layers@,
                    *input,
                    *projection,
                    idx as int,
                ),
            decreases idx,
        {
            assert(self.layers@[idx - 1].1.layer_wf());
            let icon = self.layers[idx - 1].1.cursor_icon(input, projection);
            if icon.is_some() {
                return icon;
            }
            idx = idx - 1;
        }
        None
    }

    /// Offers a frame's input to the layers, from the topmost down, until one
    /// takes it. Returns whether one did.
    pub fn handle_input(&mut self, input: &PointerInput, projection: &MapProjection) -> (handled: bool)
        requires
            old(self).wf(),
            input.wf(),
            projection.wf(),
        ensures
            final(self).wf(),
            layer_names(final(self).layers@) == layer_names(old(self).layers@),
            offered(
                old(self).layers@,
                final(self).layers@,
                *input,
                *projection,
                handled,
                old(self).layers@.len() as int,
            ),
    {
        let ghost before = self.layers@;
        let mut idx: usize = self.layers.len();
        while idx > 0
            invariant
                self.wf(),
                input.wf(),
                projection.wf(),
                before == old(self).layers@,
                idx <= before.len(),
                self.layers@.len() == before.len(),
                forall|j: int|
                    idx <= j < before.len() ==> (#[trigger] before[j]).1.stepped(
                        &self.layers@[j].1,
                        *input,
                        *projection,
                        false,
                    ),
                forall|j: int| 0 <= j < before.len() ==> (#[trigger] self.layers@[j]).0 == before[j].0,
                forall|j: int| 0 <= j < idx ==> #[trigger] self.layers@[j] == before[j],
            decreases idx,
        {
            let i: usize = idx - 1;
            let ghost now = self.layers@;
            assert(now[i as int].1.layer_wf());
            let entry = self.layers.remove(i);
            let name = entry.0;
            let mut layer = entry.1;
            let handled = layer.handle_input(input, projection);
            self.layers.insert(i, (name, layer));
            proof {
                assert(self.layers@ =~= now.update(i as int, (name, layer)));
                assert forall|j: int| 0 <= j < self.layers@.len() implies (#[trigger] self.layers@[j]).1.layer_wf() by {
                    if j != i {
                        assert(self.layers@[j] == now[j]);
                    }
                }
                assert forall|j: int| idx <= j < before.len() implies (#[trigger] before[j]).1.stepped(
                    &self.layers@[j].1,
                    *input,
                    *projection,
                    false,
                ) by {
                    assert(self.layers@[j] == now[j]);
                }
                assert(before[i as int].1.stepped(&self.layers@[i as int].1, *input, *projection, handled));
            }
            if handled {
                proof {
                    lemma_offered(before, self.layers@, *input, *projection, true, idx as int, before.len() as int);
                    assert(layer_names(self.layers@) =~= layer_names(before));
                }
                return true;
            }
            idx = i;
        }
        proof {
            lemma_offered(before, self.layers@, *input, *projection, false, 0, before.len() as int);
            assert(layer_names(self.layers@) =~= layer_names(before));
        }
        false
    }

    /// Draws the layers, from the lowest up.
    pub fn draw(&self, projection: &MapProjection) -> (commands: Vec<DrawCommand>)
        requires
            self.wf(),
            projection.wf(),
        ensures
            command_views(commands@) == drawn_layers(self.layers@, *projection, self.layers@.len() as int),
    {
        let mut commands: Vec<DrawCommand> = Vec::new();
        let mut i: usize = 0;
        assert(command_views(commands@) =~= Seq::<DrawCommandView>::empty());
        while i < self.layers.len()
            invariant
                self.wf(),
                projection.wf(),
                i <= self.layers@.len(),
                command_views(commands@) == drawn_layers(self.layers@, *projection, i as int),
            decreases self.layers@.len() - i,
        {
            assert(self.layers@[i as int].1.layer_wf());
            let mut more = self.layers[i].1.draw(projection);
            let ghost base = command_views(commands@);
            let ghost added = command_views(more@);
            let ghost total: int = more@.len() as int;
            while more.len() > 0
                invariant
                    total == added.len(),
                    more@.len() <= total,
                    command_views(more@) == added.skip(total - more@.len()),
                    command_views(commands@) == base + added.take(total - more@.len()),
                decreases more@.len(),
            {
                let ghost rest = more@;
                let ghost done = commands@;
                let command = more.remove(0);
                commands.push(command);
                proof {
                    assert(command_views(rest)[0] == command@);
                    assert(command_views(more@) =~= added.skip(total - more@.len())) by {
                        assert forall|k: int| 0 <= k < more@.len() implies command_views(more@)[k] == added.skip(
                            total - more@.len(),
                        )[k] by {
                            assert(more@[k] == rest[k + 1]);
                            assert(command_views(rest)[k + 1] == rest[k + 1]@);
                        }
                    }
                    assert(command_views(commands@) =~= command_views(done).push(command@));
                    assert(added.take(total - more@.len()) =~= added.take(total - rest.len()).push(command@));
                }
            }
            proof {
                assert(added.take(total) =~= added);
            }
            i = i + 1;
        }
        commands
    }
}

/// What the offer came to, from what is known of each layer: the layers from
/// `from` up did not take the input, and either no layer is below them and
/// nothing was handled, or the layer just below them took the input and the
/// layers below that one stayed as they were.
proof fn lemma_offered(
    before: Seq<(String, AnyLayer)>,
    after: Seq<(String, AnyLayer)>,
    input: PointerInput,
    projection: MapProjection,
    handled: bool,
    from: int,
    top: int,
)
    requires
        0 <= from <= top <= before.len(),
        from == 0 ==> !handled,
        from > 0 ==> handled && before[from - 1].1.stepped(&after[from - 1].1, input, projection, true)
            && forall|j: int| 0 <= j < from - 1 ==> #[trigger] after[j] == before[j],
        forall|j: int|
            from <= j < top ==> (#[trigger] before[j]).1.stepped(&after[j].1, input, projection, false),
    ensures
        offered(before, after, input, projection, handled, top),
    decreases top,
{
    if top > from {
        lemma_offered(before, after, input, projection, handled, from, top - 1);
        assert(before[top - 1].1.stepped(&after[top - 1].1, input, projection, false));
    }
}

} // verus!
