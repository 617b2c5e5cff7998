use mulch::document::{BlendMode, Document, Layer};
use mulch::voxels::VoxelGrid;

fn layer(name: &str, mode: BlendMode, grid: VoxelGrid) -> Layer {
    Layer { name: name.to_string(), visible: true, blend_mode: mode, voxel_grid: grid }
}

#[test]
fn default_document_has_three_empty_layers() {
    let doc = Document::default();
    let names: Vec<&str> = doc.layers.iter().map(|l| l.name.as_str()).collect();
    assert_eq!(names, vec!["Plop", "OtherLayer", "Hello!"]);
    assert!(doc.layers.iter().all(|l| l.visible && l.blend_mode == BlendMode::Add));
    assert!(doc.composite() == VoxelGrid::new());
}

#[test]
fn default_layer_is_visible_and_additive() {
    let l = Layer::default();
    assert_eq!(l.name, "Layer");
    assert!(l.visible);
    assert_eq!(l.blend_mode, BlendMode::Add);
    assert!(l.voxel_grid == VoxelGrid::new());
}

#[test]
fn layer_order_changes_the_composite() {
    let mut a = VoxelGrid::new();
    a.paint_cube((10, 10, 10), (20, 20, 20)).unwrap();
    let mut b = a.clone();
    b.paint_cube((15, 15, 15), (30, 30, 30)).unwrap();

    let first = Document {
        layers: vec![
            layer("a", BlendMode::Add, a.clone()),
            layer("b", BlendMode::Subtract, b.clone()),
        ],
    };
    let second = Document {
        layers: vec![layer("b", BlendMode::Subtract, b), layer("a", BlendMode::Add, a.clone())],
    };
    let c1 = first.composite();
    let c2 = second.composite();
    assert!(c1 == VoxelGrid::new());
    assert!(c2 == a);
    assert!(c1 != c2);
}

#[test]
fn hidden_layers_are_left_out_of_the_composite() {
    let mut a = VoxelGrid::new();
    a.paint_cube((1, 1, 1), (5, 5, 5)).unwrap();
    let mut hidden = layer("hidden", BlendMode::Subtract, a.clone());
    hidden.visible = false;
    let doc = Document { layers: vec![layer("a", BlendMode::Add, a.clone()), hidden] };
    assert!(doc.composite() == a);
}

#[test]
fn composite_folds_layers_in_order() {
    let mut a = VoxelGrid::new();
    a.paint_cube((0, 0, 0), (10, 9, 9)).unwrap();
    let mut hole = VoxelGrid::new();
    hole.paint_cube((3, 3, 3), (6, 5, 5)).unwrap();
    let mut plug = VoxelGrid::new();
    plug.paint_cube((4, 4, 4), (5, 4, 4)).unwrap();
    let doc = Document {
        layers: vec![
            layer("a", BlendMode::Add, a),
            layer("hole", BlendMode::Subtract, hole),
            layer("plug", BlendMode::Add, plug),
        ],
    };
    let c = doc.composite();
    assert_eq!(c.read((0, 0, 0)), Ok(1));
    assert_eq!(c.read((3, 3, 3)), Ok(0));
    assert_eq!(c.read((5, 5, 5)), Ok(0));
    assert_eq!(c.read((4, 4, 4)), Ok(1));
    assert_eq!(c.read((6, 5, 5)), Ok(1));
}
