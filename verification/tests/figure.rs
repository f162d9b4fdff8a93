use veloren_logic::figure::{
    Cell, CellAttr, CellData, Dyna, DynaUnionizer, MatCell, Material, Rgb, Segment, MatSegment, VoxData, VoxModel,
    Voxel,
};

fn rgb(r: u8, g: u8, b: u8) -> Rgb { Rgb { r, g, b } }

fn data() -> VoxData {
    VoxData {
        models: vec![VoxModel {
            size: (3, 2, 1),
            voxels: vec![
                Voxel { x: 0, y: 0, z: 0, i: 1 },
                Voxel { x: 2, y: 1, z: 0, i: 9 },
                Voxel { x: 1, y: 0, z: 0, i: 7 },
                Voxel { x: 0, y: 0, z: 0, i: 2 },
            ],
        }],
        palette: vec![rgb(0, 0, 0), rgb(10, 10, 10), rgb(20, 20, 20), rgb(30, 30, 30), rgb(40, 40, 40),
            rgb(50, 50, 50), rgb(60, 60, 60), rgb(70, 70, 70)],
    }
}

fn filled(c: Rgb, i: u8) -> Cell { Cell::Filled(CellData { col: c, attr: CellAttr { index: Some(i) } }) }

#[test]
fn segment_from_vox() {
    let seg = Segment::from_vox(&data(), false, 0);
    assert_eq!(seg.size(), (3, 2, 1));
    // The later voxel at the same place wins; index 9 has no color.
    assert_eq!(seg.get((0, 0, 0)), Some(filled(rgb(20, 20, 20), 2)));
    assert_eq!(seg.get((1, 0, 0)), Some(filled(rgb(70, 70, 70), 7)));
    assert_eq!(seg.get((2, 1, 0)), Some(Cell::Empty));
    assert_eq!(seg.get((3, 0, 0)), None);
    assert_eq!(seg.get((-1, 0, 0)), None);
}

#[test]
fn segment_from_vox_mirrored_and_missing_model() {
    let seg = Segment::from_vox(&data(), true, 0);
    assert_eq!(seg.get((2, 0, 0)), Some(filled(rgb(20, 20, 20), 2)));
    assert_eq!(seg.get((1, 0, 0)), Some(filled(rgb(70, 70, 70), 7)));
    assert_eq!(seg.get((0, 0, 0)), Some(Cell::Empty));
    let none = Segment::from_vox_model_index(&data(), 1);
    assert_eq!(none.size(), (0, 0, 0));
}

#[test]
fn mat_segment_from_vox() {
    let seg = MatSegment::from_vox_model_index(&data(), 0);
    assert_eq!(seg.get((0, 0, 0)), Some(MatCell::Mat(Material::EyeDark)));
    assert_eq!(seg.get((1, 0, 0)), Some(MatCell::Mat(Material::EyeWhite)));
    assert_eq!(
        seg.get((2, 1, 0)),
        Some(MatCell::Normal(CellData { col: rgb(0, 0, 0), attr: CellAttr { index: Some(9) } }))
    );
    assert_eq!(seg.get((2, 0, 0)), Some(MatCell::Empty));
    let seg = seg.map_rgb(|c| rgb(c.r, 255, c.b));
    assert_eq!(
        seg.get((2, 1, 0)),
        Some(MatCell::Normal(CellData { col: rgb(0, 255, 0), attr: CellAttr { index: Some(9) } }))
    );
    let seg2 = seg.to_segment(|m| if m == Material::EyeWhite { rgb(1, 2, 3) } else { rgb(9, 9, 9) });
    assert_eq!(seg2.get((1, 0, 0)), Some(Cell::Filled(CellData { col: rgb(1, 2, 3), attr: CellAttr { index: None } })));
    assert_eq!(seg2.get((2, 0, 0)), Some(Cell::Empty));
    let seg3 = seg.map(|c| if c == MatCell::Empty { Some(MatCell::Mat(Material::Hair)) } else { None });
    assert_eq!(seg3.get((2, 0, 0)), Some(MatCell::Mat(Material::Hair)));
    assert_eq!(seg3.get((1, 0, 0)), Some(MatCell::Mat(Material::EyeWhite)));
}

#[test]
fn segment_map_and_map_rgb() {
    let seg = Segment::from_vox(&data(), false, 0);
    let seg = seg.map_rgb(|c| rgb(c.r + 1, c.g, c.b));
    assert_eq!(seg.get((1, 0, 0)), Some(filled(rgb(71, 70, 70), 7)));
    assert_eq!(seg.get((2, 1, 0)), Some(Cell::Empty));
    let seg = seg.map(|c| match c { Cell::Empty => Some(Cell::new(rgb(5, 5, 5), CellAttr::empty())), _ => None });
    assert_eq!(seg.get((2, 1, 0)), Some(Cell::Filled(CellData { col: rgb(5, 5, 5), attr: CellAttr { index: None } })));
    assert_eq!(seg.get((1, 0, 0)), Some(filled(rgb(71, 70, 70), 7)));
}

#[test]
fn unify_places_volumes() {
    let mut a: Dyna<Cell> = Dyna::filled((2, 1, 1), Cell::Empty);
    a.set((0, 0, 0), filled(rgb(1, 1, 1), 1));
    a.set((1, 0, 0), filled(rgb(2, 2, 2), 2));
    let mut b: Dyna<Cell> = Dyna::filled((1, 1, 1), Cell::Empty);
    b.set((0, 0, 0), filled(rgb(3, 3, 3), 3));
    let (u, origin) = DynaUnionizer::new().add(a, (-1, 0, 0)).add(b, (0, 0, 2)).unify();
    assert_eq!(origin, (1, 0, 0));
    assert_eq!(u.size(), (2, 1, 3));
    assert_eq!(u.get((0, 0, 0)), Some(filled(rgb(1, 1, 1), 1)));
    assert_eq!(u.get((1, 0, 0)), Some(filled(rgb(2, 2, 2), 2)));
    assert_eq!(u.get((1, 0, 2)), Some(filled(rgb(3, 3, 3), 3)));
    assert_eq!(u.get((1, 0, 1)), Some(Cell::Empty));
    let (e, o) = DynaUnionizer::<Cell>::new().maybe_add(None).unify();
    assert_eq!((e.size(), o), ((0, 0, 0), (0, 0, 0)));
}

#[test]
fn unify_with_combines_overlaps() {
    let mut a: Dyna<Cell> = Dyna::filled((1, 1, 1), Cell::Empty);
    a.set((0, 0, 0), filled(rgb(1, 1, 1), 1));
    let mut b: Dyna<Cell> = Dyna::filled((1, 1, 1), Cell::Empty);
    b.set((0, 0, 0), filled(rgb(3, 3, 3), 3));
    let (u, _) = DynaUnionizer::new().add(a, (0, 0, 0)).maybe_add(Some((b, (0, 0, 0)))).unify_with(|new, old| match (new, old) {
        (Cell::Filled(n), Cell::Filled(o)) => Cell::Filled(CellData { col: rgb(n.col.r + o.col.r, 0, 0), attr: n.attr }),
        (n, _) => n,
    });
    assert_eq!(u.get((0, 0, 0)), Some(filled(rgb(4, 0, 0), 3)));
}

#[test]
fn from_voxes_combines_models() {
    let d = data();
    let (seg, origin) = Segment::from_voxes(&[(&d, (0, 0, 0), false), (&d, (3, 0, 0), true)]);
    assert_eq!(origin, (0, 0, 0));
    assert_eq!(seg.size(), (6, 2, 1));
    assert_eq!(seg.get((0, 0, 0)), Some(filled(rgb(20, 20, 20), 2)));
    assert_eq!(seg.get((5, 0, 0)), Some(filled(rgb(20, 20, 20), 2)));
    assert_eq!(seg.get((3, 0, 0)), Some(Cell::Empty));
}
