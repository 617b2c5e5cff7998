use vstd::prelude::*;

use crate::voxels::{difference_words, empty_words, union_words, well_formed_words, VoxelGrid};

verus! {

/// How a layer's volume is folded into the composite.
#[derive(Debug, Clone, Copy, PartialEq, Eq, Structural)]
pub enum BlendMode {
    /// Union: the layer's voxels are added.
    Add,
    /// Difference: the layer's voxels are removed.
    Subtract,
}

/// One named volume of a document, with its visibility and blend mode.
pub struct Layer {
    pub name: String,
    pub visible: bool,
    pub blend_mode: BlendMode,
    pub voxel_grid: VoxelGrid,
}

/// What the composite reads of a layer: visibility, blend mode, voxels.
pub type LayerView = (bool, BlendMode, Seq<u64>);

impl Layer {
    pub open spec fn view(&self) -> LayerView {
        (self.visible, self.blend_mode, self.voxel_grid@)
    }

    /// A visible, additive, empty layer called `name`.
    pub fn new(name: String) -> (r: Self)
        ensures
            r.name == name,
            r.visible,
            r.blend_mode == BlendMode::Add,
            r.voxel_grid.wf(),
            r.voxel_grid@ == empty_words(),
    {
        Layer { name, visible: true, blend_mode: BlendMode::Add, voxel_grid: VoxelGrid::new() }
    }
}

impl Default for Layer {
    fn default() -> (r: Self)
        ensures
            r.name@ == "Layer"@,
            r.visible,
            r.blend_mode == BlendMode::Add,
            r.voxel_grid.wf(),
            r.voxel_grid@ == empty_words(),
    {
        Layer::new("Layer".to_owned())
    }
}

/// Folds one layer into the composite `acc`; hidden layers change nothing.
pub open spec fn blend(acc: Seq<u64>, layer: LayerView) -> Seq<u64> {
    if !layer.0 {
        acc
    } else {
        match layer.1 {
            BlendMode::Add => union_words(acc, layer.2),
            BlendMode::Subtract => difference_words(acc, layer.2),
        }
    }
}

/// The composite of `layers`: the empty volume with each layer folded in,
/// in order.
pub open spec fn composite_of(layers: Seq<LayerView>) -> Seq<u64>
    decreases layers.len(),
{
    if layers.len() == 0 {
        empty_words()
    } else {
        blend(composite_of(layers.drop_last()), layers.last())
    }
}

/// An ordered list of layers.
pub struct Document {
    pub layers: Vec<Layer>,
}

impl Document {
    pub open spec fn layer_views(&self) -> Seq<LayerView> {
        self.layers@.map_values(|l: Layer| l.view())
    }

    pub open spec fn wf(&self) -> bool {
        forall|i: int| 0 <= i < self.layers@.len() ==> #[trigger] self.layers@[i].voxel_grid.wf()
    }

    /// The volume that the document shows: the empty volume with every
    /// visible layer folded in by its blend mode, in layer order.
    pub fn composite(&self) -> (r: VoxelGrid)
        requires
            self.wf(),
        ensures
            r.wf(),
            r@ == composite_of(self.layer_views()),
    {
        let mut flat = VoxelGrid::new();
        let mut i: usize = 0;
        while i < self.layers.len()
            invariant
                self.wf(),
                i <= self.layers@.len(),
                flat.wf(),
                flat@ == composite_of(self.layer_views().take(i as int)),
            decreases self.layers@.len() - i,
        {
            let layer = &self.layers[i];
            proof {
                assert(self.layer_views().take(i + 1).drop_last() =~= self.layer_views().take(
                    i as int,
                ));
            }
            if layer.visible {
                match layer.blend_mode {
                    BlendMode::Add => flat.add(&layer.voxel_grid),
                    BlendMode::Subtract => flat.subtract(&layer.voxel_grid),
                }
            }
            i = i + 1;
        }
        assert(self.layer_views().take(self.layers@.len() as int) =~= self.layer_views());
        flat
    }
}

impl Default for Document {
    fn default() -> (r: Self)
        ensures
            r.wf(),
            r.layers@.len() == 3,
            r.layers@[0].name@ == "Plop"@,
            r.layers@[1].name@ == "OtherLayer"@,
            r.layers@[2].name@ == "Hello!"@,
            forall|i: int|
                0 <= i < 3 ==> #[trigger] r.layers@[i].visible && r.layers@[i].blend_mode
                    == BlendMode::Add && r.layers@[i].voxel_grid@ == empty_words(),
    {
        let mut layers: Vec<Layer> = Vec::new();
        layers.push(Layer::new("Plop".to_owned()));
        layers.push(Layer::new("OtherLayer".to_owned()));
        layers.push(Layer::new("Hello!".to_owned()));
        Document { layers }
    }
}

/// Layer order matters: with `a` inside `b` and not empty, adding `a` then
/// removing `b` leaves nothing, while removing `b` then adding `a` leaves
/// `a`.
pub proof fn lemma_order_sensitive(a: Seq<u64>, b: Seq<u64>)
    requires
        well_formed_words(a),
        well_formed_words(b),
        difference_words(a, b) == empty_words(),
        a != empty_words(),
    ensures
        composite_of(seq![(true, BlendMode::Add, a), (true, BlendMode::Subtract, b)])
            == empty_words(),
        composite_of(seq![(true, BlendMode::Subtract, b), (true, BlendMode::Add, a)]) == a,
        composite_of(seq![(true, BlendMode::Add, a), (true, BlendMode::Subtract, b)])
            != composite_of(seq![(true, BlendMode::Subtract, b), (true, BlendMode::Add, a)]),
{
    let e = empty_words();
    let first: Seq<LayerView> = seq![(true, BlendMode::Add, a), (true, BlendMode::Subtract, b)];
    let second: Seq<LayerView> = seq![(true, BlendMode::Subtract, b), (true, BlendMode::Add, a)];
    assert(first.drop_last().drop_last() =~= Seq::<LayerView>::empty());
    assert(second.drop_last().drop_last() =~= Seq::<LayerView>::empty());
    assert(union_words(e, a) =~= a) by {
        assert forall|i: int| 0 <= i < a.len() implies #[trigger] union_words(e, a)[i] == a[i] by {
            let w = a[i];
            assert(0u64 | w == w) by (bit_vector);
        }
    }
    assert(difference_words(e, b) =~= e) by {
        assert forall|i: int| 0 <= i < e.len() implies #[trigger] difference_words(e, b)[i]
            == e[i] by {
            let w = b[i];
            assert(0u64 & !w == 0) by (bit_vector);
        }
    }
    assert(composite_of(first.drop_last().drop_last()) == e);
    assert(composite_of(second.drop_last().drop_last()) == e);
    assert(first.drop_last().last() == (true, BlendMode::Add, a));
    assert(second.drop_last().last() == (true, BlendMode::Subtract, b));
    assert(composite_of(first.drop_last()) == a);
    assert(composite_of(second.drop_last()) == e);
    assert(first.last() == (true, BlendMode::Subtract, b));
    assert(second.last() == (true, BlendMode::Add, a));
    assert(composite_of(first) == difference_words(a, b));
    assert(composite_of(second) == union_words(e, a));
}

} // verus!
