//! Voxel figures: dense volumes of cells, built from `.vox` models and
//! combined into one volume.
use vstd::prelude::*;

verus! {

/// A color.
#[derive(Clone, Copy, Debug, PartialEq, Eq, Structural)]
pub struct Rgb {
    pub r: u8,
    pub g: u8,
    pub b: u8,
}

impl Rgb {
    pub fn new(r: u8, g: u8, b: u8) -> (c: Rgb)
        ensures
            c == (Rgb { r, g, b }),
    {
        Rgb { r, g, b }
    }
}

/// The attributes of a cell (such as glowing or hollow) as the palette index
/// they are derived from; `None` for a cell without attributes.
#[derive(Clone, Copy, Debug, PartialEq, Eq, Structural)]
pub struct CellAttr {
    pub index: Option<u8>,
}

impl CellAttr {
    /// The attributes of palette entry `index`.
    pub fn from_index(index: u8) -> (a: CellAttr)
        ensures
            a == (CellAttr { index: Some(index) }),
    {
        CellAttr { index: Some(index) }
    }

    /// No attributes.
    pub fn empty() -> (a: CellAttr)
        ensures
            a == (CellAttr { index: None }),
    {
        CellAttr { index: None }
    }
}

/// The content of a filled cell.
#[derive(Clone, Copy, Debug, PartialEq, Eq, Structural)]
pub struct CellData {
    pub col: Rgb,
    pub attr: CellAttr,
}

/// A cell of a figure.
#[derive(Clone, Copy, Debug, PartialEq, Eq, Structural)]
pub enum Cell {
    Filled(CellData),
    Empty,
}

impl Cell {
    pub fn new(col: Rgb, attr: CellAttr) -> (c: Cell)
        ensures
            c == Cell::Filled(CellData { col, attr }),
    {
        Cell::Filled(CellData { col, attr })
    }

    /// The color of a filled cell.
    pub fn get_color(&self) -> (r: Option<Rgb>)
        ensures
            r == match self {
                Cell::Filled(d) => Some(d.col),
                Cell::Empty => None,
            },
    {
        match self {
            Cell::Filled(d) => Some(d.col),
            Cell::Empty => None,
        }
    }
}

/// Materials whose color is chosen when a figure is drawn.
#[derive(Clone, Copy, Debug, PartialEq, Eq, Structural)]
pub enum Material {
    Skin,
    SkinDark,
    SkinLight,
    Hair,
    EyeDark,
    EyeLight,
    EyeWhite,
}

/// A cell of a figure whose colors may depend on materials.
#[derive(Clone, Copy, Debug, PartialEq, Eq, Structural)]
pub enum MatCell {
    /// No voxel.
    Empty,
    Mat(Material),
    Normal(CellData),
}

/// Cells that are either filled or not.
pub trait FilledVox: Sized {
    spec fn spec_is_filled(&self) -> bool;

    spec fn spec_non_filled() -> Self;

    /// The value of a cell that is not filled.
    fn default_non_filled() -> (r: Self)
        ensures
            r == Self::spec_non_filled(),
            !r.spec_is_filled(),
    ;

    fn is_filled(&self) -> (r: bool)
        ensures
            r == self.spec_is_filled(),
    ;
}

impl FilledVox for Cell {
    open spec fn spec_is_filled(&self) -> bool {
        self is Filled
    }

    open spec fn spec_non_filled() -> Self {
        Cell::Empty
    }

    fn default_non_filled() -> (r: Self) {
        Cell::Empty
    }

    fn is_filled(&self) -> (r: bool) {
        matches!(self, Cell::Filled(_))
    }
}

impl FilledVox for MatCell {
    open spec fn spec_is_filled(&self) -> bool {
        !(self is Empty)
    }

    open spec fn spec_non_filled() -> Self {
        MatCell::Empty
    }

    fn default_non_filled() -> (r: Self) {
        MatCell::Empty
    }

    fn is_filled(&self) -> (r: bool) {
        !matches!(self, MatCell::Empty)
    }
}

/// Linear index of position `(x, y, z)` in a volume with sizes `sx` and `sy` along
/// the first two axes.
pub open spec fn lin(sx: int, sy: int, x: int, y: int, z: int) -> int {
    x + sx * (y + sy * z)
}

/// The position `p` lies in a volume of size `size`.
pub open spec fn in_bounds(size: (u32, u32, u32), p: (int, int, int)) -> bool {
    0 <= p.0 < size.0 && 0 <= p.1 < size.1 && 0 <= p.2 < size.2
}

/// Number of cells of a volume of size `size`.
pub open spec fn volume(size: (u32, u32, u32)) -> int {
    size.0 * size.1 * size.2
}

proof fn lemma_lin_bounds(sx: int, sy: int, sz: int, x: int, y: int, z: int)
    requires
        0 <= x < sx,
        0 <= y < sy,
        0 <= z < sz,
    ensures
        0 <= lin(sx, sy, x, y, z) < sx * sy * sz,
{
    assert(0 <= y + sy * z <= sy * sz - 1) by (nonlinear_arith)
        requires
            0 <= y < sy,
            0 <= z < sz,
    ;
    assert(0 <= x + sx * (y + sy * z) <= sx * (sy * sz - 1) + sx - 1) by (nonlinear_arith)
        requires
            0 <= x < sx,
            0 <= y + sy * z <= sy * sz - 1,
    ;
    assert(sx * (sy * sz - 1) + sx - 1 == sx * sy * sz - 1) by (nonlinear_arith);
}

proof fn lemma_split_unique(s: int, a1: int, b1: int, a2: int, b2: int)
    requires
        0 <= a1 < s,
        0 <= a2 < s,
        0 <= b1,
        0 <= b2,
        a1 + s * b1 == a2 + s * b2,
    ensures
        a1 == a2,
        b1 == b2,
{
    if b1 < b2 {
        assert(s * b2 >= s * b1 + s) by (nonlinear_arith)
            requires
                b1 < b2,
                0 <= s,
        ;
    } else if b2 < b1 {
        assert(s * b1 >= s * b2 + s) by (nonlinear_arith)
            requires
                b2 < b1,
                0 <= s,
        ;
    }
}

proof fn lemma_lin_injective(sx: int, sy: int, p: (int, int, int), q: (int, int, int))
    requires
        0 <= p.0 < sx,
        0 <= p.1 < sy,
        0 <= p.2,
        0 <= q.0 < sx,
        0 <= q.1 < sy,
        0 <= q.2,
        lin(sx, sy, p.0, p.1, p.2) == lin(sx, sy, q.0, q.1, q.2),
    ensures
        p == q,
{
    assert(0 <= p.1 + sy * p.2) by (nonlinear_arith)
        requires
            0 <= p.1,
            0 <= sy,
            0 <= p.2,
    ;
    assert(0 <= q.1 + sy * q.2) by (nonlinear_arith)
        requires
            0 <= q.1,
            0 <= sy,
            0 <= q.2,
    ;
    lemma_split_unique(sx, p.0, p.1 + sy * p.2, q.0, q.1 + sy * q.2);
    lemma_split_unique(sy, p.1, p.2, q.1, q.2);
}

/// A dense volume of cells.
pub struct Dyna<V> {
    size: (u32, u32, u32),
    cells: Vec<V>,
}

impl<V> Dyna<V> {
    /// The cell vector holds one cell per position.
    pub closed spec fn wf(&self) -> bool {
        self.cells@.len() == volume(self.size)
    }

    /// The size of the volume along each axis.
    pub closed spec fn spec_size(&self) -> (u32, u32, u32) {
        self.size
    }

    /// The cell at position `p` (meaningful when `p` is in bounds).
    pub closed spec fn cell(&self, p: (int, int, int)) -> V {
        self.cells@[lin(self.size.0 as int, self.size.1 as int, p.0, p.1, p.2)]
    }

    /// The size of the volume along each axis.
    pub fn size(&self) -> (r: (u32, u32, u32))
        ensures
            r == self.spec_size(),
    {
        self.size
    }
}

impl<V> View for Dyna<V> {
    /// The size of the volume and its cell at each position inside it.
    type V = ((u32, u32, u32), Map<(int, int, int), V>);

    open spec fn view(&self) -> ((u32, u32, u32), Map<(int, int, int), V>) {
        (
            self.spec_size(),
            Map::new(|p: (int, int, int)| in_bounds(self.spec_size(), p), |p: (int, int, int)| self.cell(p)),
        )
    }
}

impl<V: Copy> Dyna<V> {
    /// A volume of size `size` whose cells are all `v`.
    pub fn filled(size: (u32, u32, u32), v: V) -> (r: Self)
        requires
            volume(size) <= usize::MAX,
        ensures
            r.wf(),
            r.spec_size() == size,
            forall|p: (int, int, int)| in_bounds(size, p) ==> #[trigger] r.cell(p) == v,
    {
        let n: usize = if size.0 == 0 || size.1 == 0 || size.2 == 0 {
            0
        } else {
            let s0 = size.0 as usize;
            let s1 = size.1 as usize;
            let s2 = size.2 as usize;
            assert(s0 * s1 <= s0 * s1 * s2) by (nonlinear_arith)
                requires
                    s2 >= 1,
                    s0 >= 0,
                    s1 >= 0,
            ;
            assert(s0 * s1 * s2 == volume(size)) by (nonlinear_arith)
                requires
                    s0 == size.0,
                    s1 == size.1,
                    s2 == size.2,
            ;
            s0 * s1 * s2
        };
        assert(n == volume(size)) by (nonlinear_arith)
            requires
                (size.0 == 0 || size.1 == 0 || size.2 == 0) ==> n == 0,
                !(size.0 == 0 || size.1 == 0 || size.2 == 0) ==> n == volume(size),
                volume(size) == size.0 * size.1 * size.2,
        ;
        let mut cells: Vec<V> = Vec::new();
        let mut i: usize = 0;
        while i < n
            invariant
                i <= n,
                cells@.len() == i,
                forall|j: int| 0 <= j < i ==> cells@[j] == v,
            decreases n - i,
        {
            cells.push(v);
            i = i + 1;
        }
        let r = Dyna { size, cells };
        assert forall|p: (int, int, int)| in_bounds(size, p) implies #[trigger] r.cell(p) == v by {
            lemma_lin_bounds(size.0 as int, size.1 as int, size.2 as int, p.0, p.1, p.2);
        }
        r
    }

    fn index_of(&self, p: (i32, i32, i32)) -> (r: usize)
        requires
            self.wf(),
            in_bounds(self.spec_size(), (p.0 as int, p.1 as int, p.2 as int)),
        ensures
            r == lin(
                self.spec_size().0 as int,
                self.spec_size().1 as int,
                p.0 as int,
                p.1 as int,
                p.2 as int,
            ),
            r < self.cells@.len(),
    {
        proof {
            lemma_lin_bounds(
                self.size.0 as int,
                self.size.1 as int,
                self.size.2 as int,
                p.0 as int,
                p.1 as int,
                p.2 as int,
            );
        }
        let len = self.cells.len();
        let sx = self.size.0 as usize;
        let sy = self.size.1 as usize;
        let x = p.0 as usize;
        let y = p.1 as usize;
        let z = p.2 as usize;
        assert(sy * z <= y + sy * z && y + sy * z <= sx * (y + sy * z)) by (nonlinear_arith)
            requires
                sx >= 1,
                sy >= 0,
                z >= 0,
                y >= 0,
        ;
        assert(x + sx * (y + sy * z) < len);
        x + sx * (y + sy * z)
    }

    /// The cell at `p`, or `None` outside the volume.
    pub fn get(&self, p: (i32, i32, i32)) -> (r: Option<V>)
        requires
            self.wf(),
        ensures
            match r {
                Some(v) => in_bounds(self.spec_size(), (p.0 as int, p.1 as int, p.2 as int)) && v
                    == self.cell((p.0 as int, p.1 as int, p.2 as int)),
                None => !in_bounds(self.spec_size(), (p.0 as int, p.1 as int, p.2 as int)),
            },
    {
        if p.0 < 0 || p.1 < 0 || p.2 < 0 || p.0 as u32 >= self.size.0 || p.1 as u32 >= self.size.1
            || p.2 as u32 >= self.size.2 {
            return None;
        }
        let i = self.index_of(p);
        Some(self.cells[i])
    }

    /// Replaces the cell at `p`, which lies in the volume.
    pub fn set(&mut self, p: (i32, i32, i32), v: V)
        requires
            old(self).wf(),
            in_bounds(old(self).spec_size(), (p.0 as int, p.1 as int, p.2 as int)),
        ensures
            final(self).wf(),
            final(self).spec_size() == old(self).spec_size(),
            forall|q: (int, int, int)|
                in_bounds(old(self).spec_size(), q) ==> #[trigger] final(self).cell(q) == if q == (
                    p.0 as int,
                    p.1 as int,
                    p.2 as int,
                ) {
                    v
                } else {
                    old(self).cell(q)
                },
    {
        let i = self.index_of(p);
        let ghost before = *self;
        self.cells.set(i, v);
        proof {
            assert forall|q: (int, int, int)| in_bounds(before.size, q) implies #[trigger] self.cell(
                q,
            ) == if q == (p.0 as int, p.1 as int, p.2 as int) {
                v
            } else {
                before.cell(q)
            } by {
                lemma_lin_bounds(
                    before.size.0 as int,
                    before.size.1 as int,
                    before.size.2 as int,
                    q.0,
                    q.1,
                    q.2,
                );
                if q != (p.0 as int, p.1 as int, p.2 as int) {
                    if lin(before.size.0 as int, before.size.1 as int, q.0, q.1, q.2) == i {
                        lemma_lin_injective(
                            before.size.0 as int,
                            before.size.1 as int,
                            q,
                            (p.0 as int, p.1 as int, p.2 as int),
                        );
                    }
                }
            }
        }
    }
}

/// A voxel of a `.vox` model: its position and its palette index.
#[derive(Clone, Copy, Debug, PartialEq, Eq, Structural)]
pub struct Voxel {
    pub x: u8,
    pub y: u8,
    pub z: u8,
    pub i: u8,
}

/// A model of a `.vox` file: its size and its voxels.
#[derive(Debug)]
pub struct VoxModel {
    pub size: (u32, u32, u32),
    pub voxels: Vec<Voxel>,
}

/// The contents of a `.vox` file: its models and the colors of its palette.
#[derive(Debug)]
pub struct VoxData {
    pub models: Vec<VoxModel>,
    pub palette: Vec<Rgb>,
}

/// A volume that may be part of an animated figure.
pub type Segment = Dyna<Cell>;

/// A figure volume whose colors may depend on materials.
pub type MatSegment = Dyna<MatCell>;

/// Where voxel `v` of a model of size `size` goes; when `flipped`, the model is
/// mirrored along x (the size is taken modulo 256, as a byte).
pub open spec fn voxel_pos(size: (u32, u32, u32), v: Voxel, flipped: bool) -> (int, int, int) {
    (
        if flipped {
            (size.0 % 256) - 1 - v.x
        } else {
            v.x as int
        },
        v.y as int,
        v.z as int,
    )
}

/// Voxel `v` can be placed: mirroring does not go below zero and the position
/// is inside the model.
pub open spec fn voxel_fits(size: (u32, u32, u32), v: Voxel, flipped: bool) -> bool {
    (flipped ==> v.x < size.0 % 256) && in_bounds(size, voxel_pos(size, v, flipped))
}

/// The cell at `p` after placing the first `k` voxels; a voxel whose palette
/// index has no color is skipped, and a later voxel overwrites an earlier one.
pub open spec fn segment_cell(
    voxels: Seq<Voxel>,
    palette: Seq<Rgb>,
    size: (u32, u32, u32),
    flipped: bool,
    p: (int, int, int),
    k: int,
) -> Cell
    decreases k,
{
    if k <= 0 || k > voxels.len() {
        Cell::Empty
    } else {
        let v = voxels[k - 1];
        if (v.i as int) < palette.len() && voxel_pos(size, v, flipped) == p {
            Cell::Filled(CellData { col: palette[v.i as int], attr: CellAttr { index: Some(v.i) } })
        } else {
            segment_cell(voxels, palette, size, flipped, p, k - 1)
        }
    }
}

/// The cell a voxel with palette index `i` becomes in a material volume: the
/// first indices stand for materials, the others for their palette color
/// (black when the palette has none).
pub open spec fn mat_cell_of(i: u8, palette: Seq<Rgb>) -> MatCell {
    if i == 0 {
        MatCell::Mat(Material::Skin)
    } else if i == 1 {
        MatCell::Mat(Material::Hair)
    } else if i == 2 {
        MatCell::Mat(Material::EyeDark)
    } else if i == 3 {
        MatCell::Mat(Material::EyeLight)
    } else if i == 4 {
        MatCell::Mat(Material::SkinDark)
    } else if i == 5 {
        MatCell::Mat(Material::SkinLight)
    } else if i == 7 {
        MatCell::Mat(Material::EyeWhite)
    } else {
        MatCell::Normal(
            CellData {
                col: if (i as int) < palette.len() {
                    palette[i as int]
                } else {
                    Rgb { r: 0, g: 0, b: 0 }
                },
                attr: CellAttr { index: Some(i) },
            },
        )
    }
}

/// The cell at `p` of a material volume after placing the first `k` voxels.
pub open spec fn mat_segment_cell(
    voxels: Seq<Voxel>,
    palette: Seq<Rgb>,
    size: (u32, u32, u32),
    flipped: bool,
    p: (int, int, int),
    k: int,
) -> MatCell
    decreases k,
{
    if k <= 0 || k > voxels.len() {
        MatCell::Empty
    } else {
        let v = voxels[k - 1];
        if voxel_pos(size, v, flipped) == p {
            mat_cell_of(v.i, palette)
        } else {
            mat_segment_cell(voxels, palette, size, flipped, p, k - 1)
        }
    }
}

fn voxel_position(size: (u32, u32, u32), v: Voxel, flipped: bool) -> (r: (i32, i32, i32))
    requires
        flipped ==> v.x < size.0 % 256,
    ensures
        (r.0 as int, r.1 as int, r.2 as int) == voxel_pos(size, v, flipped),
{
    let x: u8 = if flipped {
        let sx: u32 = size.0;
        let w = sx as u8;
        assert(w == sx % 256) by (bit_vector)
            requires
                w == sx as u8,
        ;
        w - 1 - v.x
    } else {
        v.x
    };
    (x as i32, v.y as i32, v.z as i32)
}

fn mat_cell_exec(i: u8, palette: &Vec<Rgb>) -> (r: MatCell)
    ensures
        r == mat_cell_of(i, palette@),
{
    match i {
        0 => MatCell::Mat(Material::Skin),
        1 => MatCell::Mat(Material::Hair),
        2 => MatCell::Mat(Material::EyeDark),
        3 => MatCell::Mat(Material::EyeLight),
        4 => MatCell::Mat(Material::SkinDark),
        5 => MatCell::Mat(Material::SkinLight),
        7 => MatCell::Mat(Material::EyeWhite),
        index => {
            let color = if (index as usize) < palette.len() {
                palette[index as usize]
            } else {
                Rgb::new(0, 0, 0)
            };
            MatCell::Normal(CellData { col: color, attr: CellAttr::from_index(index) })
        },
    }
}

impl Dyna<Cell> {
    /// The volume of model `model_index` of `data`, mirrored along x when
    /// `flipped`; an empty volume of size zero when there is no such model.
    /// Voxels whose palette index has no color are left out.
    pub fn from_vox(data: &VoxData, flipped: bool, model_index: usize) -> (r: Segment)
        requires
            model_index < data.models@.len() ==> ({
                let m = data.models@[model_index as int];
                &&& volume(m.size) <= usize::MAX
                &&& forall|j: int|
                    0 <= j < m.voxels@.len() && (m.voxels@[j].i as int) < data.palette@.len()
                        ==> voxel_fits(m.size, #[trigger] m.voxels@[j], flipped)
            }),
        ensures
            r.wf(),
            model_index < data.models@.len() ==> ({
                let m = data.models@[model_index as int];
                &&& r.spec_size() == m.size
                &&& forall|p: (int, int, int)|
                    in_bounds(m.size, p) ==> #[trigger] r.cell(p) == segment_cell(
                        m.voxels@,
                        data.palette@,
                        m.size,
                        flipped,
                        p,
                        m.voxels@.len() as int,
                    )
            }),
            model_index >= data.models@.len() ==> r.spec_size() == (0u32, 0u32, 0u32),
    {
        if model_index < data.models.len() {
            let model = &data.models[model_index];
            let mut segment = Dyna::filled(model.size, Cell::Empty);
            let mut k: usize = 0;
            while k < model.voxels.len()
                invariant
                    k <= model.voxels@.len(),
                    segment.wf(),
                    segment.spec_size() == model.size,
                    forall|j: int|
                        0 <= j < model.voxels@.len() && (model.voxels@[j].i as int)
                            < data.palette@.len() ==> voxel_fits(
                            model.size,
                            #[trigger] model.voxels@[j],
                            flipped,
                        ),
                    forall|p: (int, int, int)|
                        in_bounds(model.size, p) ==> #[trigger] segment.cell(p) == segment_cell(
                            model.voxels@,
                            data.palette@,
                            model.size,
                            flipped,
                            p,
                            k as int,
                        ),
                decreases model.voxels.len() - k,
            {
                let v = model.voxels[k];
                if (v.i as usize) < data.palette.len() {
                    let color = data.palette[v.i as usize];
                    let pos = voxel_position(model.size, v, flipped);
                    segment.set(pos, Cell::new(color, CellAttr::from_index(v.i)));
                }
                k = k + 1;
            }
            segment
        } else {
            Dyna::filled((0, 0, 0), Cell::Empty)
        }
    }

    /// The volume of model `model_index` of `data`, not mirrored.
    pub fn from_vox_model_index(data: &VoxData, model_index: usize) -> (r: Segment)
        requires
            model_index < data.models@.len() ==> ({
                let m = data.models@[model_index as int];
                &&& volume(m.size) <= usize::MAX
                &&& forall|j: int|
                    0 <= j < m.voxels@.len() && (m.voxels@[j].i as int) < data.palette@.len()
                        ==> voxel_fits(m.size, #[trigger] m.voxels@[j], false)
            }),
        ensures
            r.wf(),
            model_index < data.models@.len() ==> ({
                let m = data.models@[model_index as int];
                &&& r.spec_size() == m.size
                &&& forall|p: (int, int, int)|
                    in_bounds(m.size, p) ==> #[trigger] r.cell(p) == segment_cell(
                        m.voxels@,
                        data.palette@,
                        m.size,
                        false,
                        p,
                        m.voxels@.len() as int,
                    )
            }),
            model_index >= data.models@.len() ==> r.spec_size() == (0u32, 0u32, 0u32),
    {
        Self::from_vox(data, false, model_index)
    }
}

impl Dyna<MatCell> {
    /// The material volume of model `model_index` of `data`, mirrored along x
    /// when `flipped`; an empty volume of size zero when there is no such
    /// model.
    pub fn from_vox(data: &VoxData, flipped: bool, model_index: usize) -> (r: MatSegment)
        requires
            model_index < data.models@.len() ==> ({
                let m = data.models@[model_index as int];
                &&& volume(m.size) <= usize::MAX
                &&& forall|j: int|
                    0 <= j < m.voxels@.len() ==> voxel_fits(m.size, #[trigger] m.voxels@[j], flipped)
            }),
        ensures
            r.wf(),
            model_index < data.models@.len() ==> ({
                let m = data.models@[model_index as int];
                &&& r.spec_size() == m.size
                &&& forall|p: (int, int, int)|
                    in_bounds(m.size, p) ==> #[trigger] r.cell(p) == mat_segment_cell(
                        m.voxels@,
                        data.palette@,
                        m.size,
                        flipped,
                        p,
                        m.voxels@.len() as int,
                    )
            }),
            model_index >= data.models@.len() ==> r.spec_size() == (0u32, 0u32, 0u32),
    {
        if model_index < data.models.len() {
            let model = &data.models[model_index];
            let mut vol = Dyna::filled(model.size, MatCell::Empty);
            let mut k: usize = 0;
            while k < model.voxels.len()
                invariant
                    k <= model.voxels@.len(),
                    vol.wf(),
                    vol.spec_size() == model.size,
                    forall|j: int|
                        0 <= j < model.voxels@.len() ==> voxel_fits(
                            model.size,
                            #[trigger] model.voxels@[j],
                            flipped,
                        ),
                    forall|p: (int, int, int)|
                        in_bounds(model.size, p) ==> #[trigger] vol.cell(p) == mat_segment_cell(
                            model.voxels@,
                            data.palette@,
                            model.size,
                            flipped,
                            p,
                            k as int,
                        ),
                decreases model.voxels.len() - k,
            {
                let v = model.voxels[k];
                let block = mat_cell_exec(v.i, &data.palette);
                let pos = voxel_position(model.size, v, flipped);
                vol.set(pos, block);
                k = k + 1;
            }
            vol
        } else {
            Dyna::filled((0, 0, 0), MatCell::Empty)
        }
    }

    /// The material volume of model `model_index` of `data`, not mirrored.
    pub fn from_vox_model_index(data: &VoxData, model_index: usize) -> (r: MatSegment)
        requires
            model_index < data.models@.len() ==> ({
                let m = data.models@[model_index as int];
                &&& volume(m.size) <= usize::MAX
                &&& forall|j: int|
                    0 <= j < m.voxels@.len() ==> voxel_fits(m.size, #[trigger] m.voxels@[j], false)
            }),
        ensures
            r.wf(),
            model_index < data.models@.len() ==> ({
                let m = data.models@[model_index as int];
                &&& r.spec_size() == m.size
                &&& forall|p: (int, int, int)|
                    in_bounds(m.size, p) ==> #[trigger] r.cell(p) == mat_segment_cell(
                        m.voxels@,
                        data.palette@,
                        m.size,
                        false,
                        p,
                        m.voxels@.len() as int,
                    )
            }),
            model_index >= data.models@.len() ==> r.spec_size() == (0u32, 0u32, 0u32),
    {
        Self::from_vox(data, false, model_index)
    }
}

/// `after` is what `transform` may give for `before`: the cell it returns, or
/// `before` itself when it returns `None`.
pub open spec fn mapped_by<V, F: Fn(V) -> Option<V>>(transform: F, before: V, after: V) -> bool {
    exists|o: Option<V>|
        #[trigger] transform.ensures((before,), o) && after == match o {
            Some(c) => c,
            None => before,
        }
}

proof fn lemma_cell_index<V>(d: &Dyna<V>, p: (int, int, int))
    requires
        d.wf(),
        in_bounds(d.spec_size(), p),
    ensures
        0 <= lin(d.spec_size().0 as int, d.spec_size().1 as int, p.0, p.1, p.2) < d.cells@.len(),
        d.cell(p) == d.cells@[lin(d.spec_size().0 as int, d.spec_size().1 as int, p.0, p.1, p.2)],
{
    lemma_lin_bounds(d.size.0 as int, d.size.1 as int, d.size.2 as int, p.0, p.1, p.2);
}

impl Dyna<Cell> {
    /// Transforms cells: each cell is replaced by what `transform` gives for it,
    /// or kept when it gives `None`.
    pub fn map<F: Fn(Cell) -> Option<Cell>>(self, transform: F) -> (r: Self)
        requires
            self.wf(),
            forall|c: Cell| #[trigger] transform.requires((c,)),
        ensures
            r.wf(),
            r.spec_size() == self.spec_size(),
            forall|p: (int, int, int)|
                in_bounds(self.spec_size(), p) ==> mapped_by(transform, self.cell(p), #[trigger] r.cell(p)),
    {
        let ghost orig = self;
        let mut out = self;
        let mut j: usize = 0;
        while j < out.cells.len()
            invariant
                out.size == orig.size,
                out.cells@.len() == orig.cells@.len(),
                j <= out.cells@.len(),
                forall|c: Cell| #[trigger] transform.requires((c,)),
                forall|i: int| j <= i < out.cells@.len() ==> out.cells@[i] == orig.cells@[i],
                forall|i: int|
                    0 <= i < j ==> #[trigger] mapped_by(transform, orig.cells@[i], out.cells@[i]),
            decreases out.cells@.len() - j,
        {
            let old_cell = out.cells[j];
            let o = transform(old_cell);
            let ghost before = out.cells@;
            match o {
                Some(c) => {
                    out.cells.set(j, c);
                },
                None => {},
            }
            assert(transform.ensures((orig.cells@[j as int],), o));
            assert(mapped_by(transform, orig.cells@[j as int], out.cells@[j as int]));
            assert forall|i: int| 0 <= i < j implies #[trigger] mapped_by(transform, orig.cells@[i], out.cells@[i]) by {
                assert(out.cells@[i] == before[i]);
            }
            j = j + 1;
        }
        proof {
            assert forall|p: (int, int, int)| in_bounds(orig.spec_size(), p) implies mapped_by(transform, orig.cell(p), #[trigger] out.cell(p)) by {
                lemma_cell_index(&orig, p);
                let i = lin(orig.size.0 as int, orig.size.1 as int, p.0, p.1, p.2);
                assert(out.cells@[i] == out.cell(p));
                assert(orig.cells@[i] == orig.cell(p));
            }
        }
        out
    }

    /// Transforms the colors of the filled cells, keeping their attributes.
    pub fn map_rgb<F: Fn(Rgb) -> Rgb>(self, transform: F) -> (r: Self)
        requires
            self.wf(),
            forall|c: Rgb| #[trigger] transform.requires((c,)),
        ensures
            r.wf(),
            r.spec_size() == self.spec_size(),
            forall|p: (int, int, int)|
                in_bounds(self.spec_size(), p) ==> match self.cell(p) {
                    Cell::Filled(d) => exists|c: Rgb|
                        #[trigger] transform.ensures((d.col,), c) && r.cell(p) == Cell::Filled(
                            CellData { col: c, attr: d.attr },
                        ),
                    Cell::Empty => r.cell(p) == Cell::Empty,
                },
    {
        let ghost orig = self;
        let mut out = self;
        let mut j: usize = 0;
        while j < out.cells.len()
            invariant
                out.size == orig.size,
                out.cells@.len() == orig.cells@.len(),
                j <= out.cells@.len(),
                forall|c: Rgb| #[trigger] transform.requires((c,)),
                forall|i: int| j <= i < out.cells@.len() ==> out.cells@[i] == orig.cells@[i],
                forall|i: int|
                    0 <= i < j ==> match #[trigger] orig.cells@[i] {
                        Cell::Filled(d) => exists|c: Rgb|
                            #[trigger] transform.ensures((d.col,), c) && out.cells@[i]
                                == Cell::Filled(CellData { col: c, attr: d.attr }),
                        Cell::Empty => out.cells@[i] == Cell::Empty,
                    },
            decreases out.cells@.len() - j,
        {
            let old_cell = out.cells[j];
            match old_cell {
                Cell::Filled(d) => {
                    let c = transform(d.col);
                    out.cells.set(j, Cell::new(c, d.attr));
                },
                Cell::Empty => {},
            }
            j = j + 1;
        }
        proof {
            assert forall|p: (int, int, int)| in_bounds(orig.spec_size(), p) implies match orig.cell(
                p,
            ) {
                Cell::Filled(d) => exists|c: Rgb|
                    #[trigger] transform.ensures((d.col,), c) && out.cell(p) == Cell::Filled(
                        CellData { col: c, attr: d.attr },
                    ),
                Cell::Empty => out.cell(p) == Cell::Empty,
            } by {
                lemma_cell_index(&orig, p);
                let i = lin(orig.size.0 as int, orig.size.1 as int, p.0, p.1, p.2);
                assert(orig.cells@[i] == orig.cell(p));
            }
        }
        out
    }
}

impl Dyna<MatCell> {
    /// Transforms cells: each cell is replaced by what `transform` gives for it,
    /// or kept when it gives `None`.
    pub fn map<F: Fn(MatCell) -> Option<MatCell>>(self, transform: F) -> (r: Self)
        requires
            self.wf(),
            forall|c: MatCell| #[trigger] transform.requires((c,)),
        ensures
            r.wf(),
            r.spec_size() == self.spec_size(),
            forall|p: (int, int, int)|
                in_bounds(self.spec_size(), p) ==> mapped_by(transform, self.cell(p), #[trigger] r.cell(p)),
    {
        let ghost orig = self;
        let mut out = self;
        let mut j: usize = 0;
        while j < out.cells.len()
            invariant
                out.size == orig.size,
                out.cells@.len() == orig.cells@.len(),
                j <= out.cells@.len(),
                forall|c: MatCell| #[trigger] transform.requires((c,)),
                forall|i: int| j <= i < out.cells@.len() ==> out.cells@[i] == orig.cells@[i],
                forall|i: int|
                    0 <= i < j ==> #[trigger] mapped_by(transform, orig.cells@[i], out.cells@[i]),
            decreases out.cells@.len() - j,
        {
            let old_cell = out.cells[j];
            let o = transform(old_cell);
            let ghost before = out.cells@;
            match o {
                Some(c) => {
                    out.cells.set(j, c);
                },
                None => {},
            }
            assert(transform.ensures((orig.cells@[j as int],), o));
            assert(mapped_by(transform, orig.cells@[j as int], out.cells@[j as int]));
            assert forall|i: int| 0 <= i < j implies #[trigger] mapped_by(transform, orig.cells@[i], out.cells@[i]) by {
                assert(out.cells@[i] == before[i]);
            }
            j = j + 1;
        }
        proof {
            assert forall|p: (int, int, int)| in_bounds(orig.spec_size(), p) implies mapped_by(transform, orig.cell(p), #[trigger] out.cell(p)) by {
                lemma_cell_index(&orig, p);
                let i = lin(orig.size.0 as int, orig.size.1 as int, p.0, p.1, p.2);
                assert(out.cells@[i] == out.cell(p));
                assert(orig.cells@[i] == orig.cell(p));
            }
        }
        out
    }

    /// Transforms the colors of the cells with their own color; material cells
    /// and empty cells are kept.
    pub fn map_rgb<F: Fn(Rgb) -> Rgb>(self, transform: F) -> (r: Self)
        requires
            self.wf(),
            forall|c: Rgb| #[trigger] transform.requires((c,)),
        ensures
            r.wf(),
            r.spec_size() == self.spec_size(),
            forall|p: (int, int, int)|
                in_bounds(self.spec_size(), p) ==> match self.cell(p) {
                    MatCell::Normal(d) => exists|c: Rgb|
                        #[trigger] transform.ensures((d.col,), c) && r.cell(p) == MatCell::Normal(
                            CellData { col: c, attr: d.attr },
                        ),
                    _ => r.cell(p) == self.cell(p),
                },
    {
        let ghost orig = self;
        let mut out = self;
        let mut j: usize = 0;
        while j < out.cells.len()
            invariant
                out.size == orig.size,
                out.cells@.len() == orig.cells@.len(),
                j <= out.cells@.len(),
                forall|c: Rgb| #[trigger] transform.requires((c,)),
                forall|i: int| j <= i < out.cells@.len() ==> out.cells@[i] == orig.cells@[i],
                forall|i: int|
                    0 <= i < j ==> match #[trigger] orig.cells@[i] {
                        MatCell::Normal(d) => exists|c: Rgb|
                            #[trigger] transform.ensures((d.col,), c) && out.cells@[i]
                                == MatCell::Normal(CellData { col: c, attr: d.attr }),
                        _ => out.cells@[i] == orig.cells@[i],
                    },
            decreases out.cells@.len() - j,
        {
            let old_cell = out.cells[j];
            match old_cell {
                MatCell::Normal(d) => {
                    let c = transform(d.col);
                    out.cells.set(j, MatCell::Normal(CellData { col: c, attr: d.attr }));
                },
                _ => {},
            }
            j = j + 1;
        }
        proof {
            assert forall|p: (int, int, int)| in_bounds(orig.spec_size(), p) implies match orig.cell(
                p,
            ) {
                MatCell::Normal(d) => exists|c: Rgb|
                    #[trigger] transform.ensures((d.col,), c) && out.cell(p) == MatCell::Normal(
                        CellData { col: c, attr: d.attr },
                    ),
                _ => out.cell(p) == orig.cell(p),
            } by {
                lemma_cell_index(&orig, p);
                let i = lin(orig.size.0 as int, orig.size.1 as int, p.0, p.1, p.2);
                assert(orig.cells@[i] == orig.cell(p));
            }
        }
        out
    }

    /// A figure volume of the same size in which material cells get the color
    /// `map` gives for their material (and no attributes), cells with their own
    /// color keep it, and empty cells stay empty.
    pub fn to_segment<F: Fn(Material) -> Rgb>(&self, map: F) -> (r: Segment)
        requires
            self.wf(),
            forall|m: Material| #[trigger] map.requires((m,)),
        ensures
            r.wf(),
            r.spec_size() == self.spec_size(),
            forall|p: (int, int, int)|
                in_bounds(self.spec_size(), p) ==> match self.cell(p) {
                    MatCell::Empty => r.cell(p) == Cell::Empty,
                    MatCell::Mat(m) => exists|c: Rgb|
                        #[trigger] map.ensures((m,), c) && r.cell(p) == Cell::Filled(
                            CellData { col: c, attr: CellAttr { index: None } },
                        ),
                    MatCell::Normal(d) => r.cell(p) == Cell::Filled(d),
                },
    {
        let mut cells: Vec<Cell> = Vec::new();
        let mut j: usize = 0;
        while j < self.cells.len()
            invariant
                j <= self.cells@.len(),
                cells@.len() == j,
                forall|m: Material| #[trigger] map.requires((m,)),
                forall|i: int|
                    0 <= i < j ==> match #[trigger] self.cells@[i] {
                        MatCell::Empty => cells@[i] == Cell::Empty,
                        MatCell::Mat(m) => exists|c: Rgb|
                            #[trigger] map.ensures((m,), c) && cells@[i] == Cell::Filled(
                                CellData { col: c, attr: CellAttr { index: None } },
                            ),
                        MatCell::Normal(d) => cells@[i] == Cell::Filled(d),
                    },
            decreases self.cells@.len() - j,
        {
            let vox = self.cells[j];
            let cell = match vox {
                MatCell::Empty => Cell::Empty,
                MatCell::Mat(m) => Cell::new(map(m), CellAttr::empty()),
                MatCell::Normal(d) => Cell::Filled(d),
            };
            cells.push(cell);
            j = j + 1;
        }
        let r = Dyna { size: self.size, cells };
        proof {
            assert forall|p: (int, int, int)| in_bounds(self.spec_size(), p) implies match self.cell(
                p,
            ) {
                MatCell::Empty => r.cell(p) == Cell::Empty,
                MatCell::Mat(m) => exists|c: Rgb|
                    #[trigger] map.ensures((m,), c) && r.cell(p) == Cell::Filled(
                        CellData { col: c, attr: CellAttr { index: None } },
                    ),
                MatCell::Normal(d) => r.cell(p) == Cell::Filled(d),
            } by {
                lemma_cell_index(self, p);
                let i = lin(self.size.0 as int, self.size.1 as int, p.0, p.1, p.2);
                assert(self.cells@[i] == self.cell(p));
            }
        }
        r
    }
}

/// A builder that combines volumes placed at offsets into one volume.
pub struct DynaUnionizer<V>(pub Vec<(Dyna<V>, (i32, i32, i32))>);

pub open spec fn min3(a: (int, int, int), b: (int, int, int)) -> (int, int, int) {
    (
        if a.0 <= b.0 { a.0 } else { b.0 },
        if a.1 <= b.1 { a.1 } else { b.1 },
        if a.2 <= b.2 { a.2 } else { b.2 },
    )
}

pub open spec fn max3(a: (int, int, int), b: (int, int, int)) -> (int, int, int) {
    (
        if a.0 >= b.0 { a.0 } else { b.0 },
        if a.1 >= b.1 { a.1 } else { b.1 },
        if a.2 >= b.2 { a.2 } else { b.2 },
    )
}

/// Size and offset of a placed volume.
pub type Placement = ((u32, u32, u32), (i32, i32, i32));

/// The sizes and offsets of placed volumes.
pub open spec fn placements<V>(parts: Seq<(Dyna<V>, (i32, i32, i32))>) -> Seq<Placement> {
    Seq::new(parts.len(), |i: int| (parts[i].0.spec_size(), parts[i].1))
}

pub open spec fn offset_of(pl: Placement) -> (int, int, int) {
    (pl.1.0 as int, pl.1.1 as int, pl.1.2 as int)
}

/// The far corner of a placed volume: its offset plus its size.
pub open spec fn far_corner(pl: Placement) -> (int, int, int) {
    (pl.1.0 + pl.0.0, pl.1.1 + pl.0.1, pl.1.2 + pl.0.2)
}

/// The least corner of the first `n` placed volumes (`n >= 1`).
pub open spec fn bbox_lo(pls: Seq<Placement>, n: int) -> (int, int, int)
    decreases n,
{
    if n <= 1 {
        offset_of(pls[0])
    } else {
        min3(bbox_lo(pls, n - 1), offset_of(pls[n - 1]))
    }
}

/// The greatest far corner of the first `n` placed volumes (`n >= 1`).
pub open spec fn bbox_hi(pls: Seq<Placement>, n: int) -> (int, int, int)
    decreases n,
{
    if n <= 1 {
        far_corner(pls[0])
    } else {
        max3(bbox_hi(pls, n - 1), far_corner(pls[n - 1]))
    }
}

/// Placed volumes can be combined without overflow: sizes and corners fit in
/// `i32`, the bounding box can be negated and measured in `i32`, and its volume
/// fits in memory.
pub open spec fn unify_fits(pls: Seq<Placement>) -> bool {
    &&& forall|i: int|
        0 <= i < pls.len() ==> {
            let c = far_corner(#[trigger] pls[i]);
            &&& pls[i].0.0 <= i32::MAX
            &&& pls[i].0.1 <= i32::MAX
            &&& pls[i].0.2 <= i32::MAX
            &&& c.0 <= i32::MAX && c.1 <= i32::MAX && c.2 <= i32::MAX
        }
    &&& pls.len() > 0 ==> {
        let lo = bbox_lo(pls, pls.len() as int);
        let hi = bbox_hi(pls, pls.len() as int);
        &&& lo.0 > i32::MIN && lo.1 > i32::MIN && lo.2 > i32::MIN
        &&& hi.0 - lo.0 <= i32::MAX && hi.1 - lo.1 <= i32::MAX && hi.2 - lo.2 <= i32::MAX
        &&& (hi.0 - lo.0) * (hi.1 - lo.1) * (hi.2 - lo.2) <= usize::MAX
    }
}

/// The filled cell that placed volume `i` puts at position `q` of the combined
/// volume whose least corner is `lo`, if any.
pub open spec fn covering<V: FilledVox>(
    parts: Seq<(Dyna<V>, (i32, i32, i32))>,
    lo: (int, int, int),
    i: int,
    q: (int, int, int),
) -> Option<V> {
    let part = parts[i];
    let p = (q.0 + lo.0 - part.1.0, q.1 + lo.1 - part.1.1, q.2 + lo.2 - part.1.2);
    if in_bounds(part.0.spec_size(), p) && part.0.cell(p).spec_is_filled() {
        Some(part.0.cell(p))
    } else {
        None
    }
}

/// `v` is a possible value at `q` after combining the first `i` placed volumes:
/// starting from the non-filled value, each volume with a filled cell at `q`
/// replaces the value `w` there by what `f` gives for (its cell, `w`).
pub open spec fn unified<V: FilledVox, F: Fn(V, V) -> V>(
    parts: Seq<(Dyna<V>, (i32, i32, i32))>,
    f: F,
    lo: (int, int, int),
    i: int,
    q: (int, int, int),
    v: V,
) -> bool
    decreases i,
{
    if i <= 0 {
        v == V::spec_non_filled()
    } else {
        match covering(parts, lo, i - 1, q) {
            None => unified(parts, f, lo, i - 1, q, v),
            Some(vox) => exists|w: V|
                unified(parts, f, lo, i - 1, q, w) && #[trigger] f.ensures((vox, w), v),
        }
    }
}

/// The cell at `q` after combining the first `i` placed volumes when later
/// volumes overwrite earlier ones: the cell of the last volume with a filled
/// cell at `q`, or the non-filled value.
pub open spec fn unified_last<V: FilledVox>(
    parts: Seq<(Dyna<V>, (i32, i32, i32))>,
    lo: (int, int, int),
    i: int,
    q: (int, int, int),
) -> V
    decreases i,
{
    if i <= 0 {
        V::spec_non_filled()
    } else {
        match covering(parts, lo, i - 1, q) {
            Some(v) => v,
            None => unified_last(parts, lo, i - 1, q),
        }
    }
}

proof fn lemma_unified_overwrite<V: FilledVox, F: Fn(V, V) -> V>(
    parts: Seq<(Dyna<V>, (i32, i32, i32))>,
    f: F,
    lo: (int, int, int),
    i: int,
    q: (int, int, int),
    v: V,
)
    requires
        forall|a: V, b: V, r: V| #[trigger] f.ensures((a, b), r) ==> r == a,
        unified(parts, f, lo, i, q, v),
    ensures
        v == unified_last(parts, lo, i, q),
    decreases i,
{
    if i > 0 {
        match covering(parts, lo, i - 1, q) {
            Some(vox) => {
                let w = choose|w: V| unified(parts, f, lo, i - 1, q, w) && #[trigger] f.ensures((vox, w), v);
                assert(f.ensures((vox, w), v));
            },
            None => {
                lemma_unified_overwrite(parts, f, lo, i - 1, q, v);
            },
        }
    }
}

proof fn lemma_bbox(pls: Seq<Placement>, n: int)
    requires
        1 <= n <= pls.len(),
    ensures
        forall|i: int|
            0 <= i < n ==> {
                let lo = bbox_lo(pls, n);
                let hi = bbox_hi(pls, n);
                let o = offset_of(#[trigger] pls[i]);
                let c = far_corner(pls[i]);
                &&& lo.0 <= o.0 && lo.1 <= o.1 && lo.2 <= o.2
                &&& c.0 <= hi.0 && c.1 <= hi.1 && c.2 <= hi.2
            },
    decreases n,
{
    if n > 1 {
        lemma_bbox(pls, n - 1);
    }
}

impl<V: FilledVox + Copy> DynaUnionizer<V> {
    /// A builder without volumes.
    pub fn new() -> (r: Self)
        ensures
            r.0@.len() == 0,
    {
        DynaUnionizer(Vec::new())
    }

    /// Adds `dyna` placed at `offset`.
    pub fn add(self, dyna: Dyna<V>, offset: (i32, i32, i32)) -> (r: Self)
        ensures
            r.0@ == self.0@.push((dyna, offset)),
    {
        let mut parts = self.0;
        parts.push((dyna, offset));
        DynaUnionizer(parts)
    }

    /// Adds a placed volume if there is one.
    pub fn maybe_add(self, maybe: Option<(Dyna<V>, (i32, i32, i32))>) -> (r: Self)
        ensures
            r.0@ == match maybe {
                Some(part) => self.0@.push(part),
                None => self.0@,
            },
    {
        match maybe {
            Some((dyna, offset)) => self.add(dyna, offset),
            None => self,
        }
    }

    /// Combines the volumes into one that spans all of them; where volumes
    /// overlap, the filled cell of the volume added last wins.  Also returns
    /// where the origin of the offsets lies in the combined volume.
    pub fn unify(self) -> (r: (Dyna<V>, (i32, i32, i32)))
        requires
            forall|i: int| 0 <= i < self.0@.len() ==> (#[trigger] self.0@[i]).0.wf(),
            unify_fits(placements(self.0@)),
        ensures
            r.0.wf(),
            self.0@.len() == 0 ==> r.0.spec_size() == (0u32, 0u32, 0u32) && r.1 == (0i32, 0i32, 0i32),
            self.0@.len() > 0 ==> {
                let lo = bbox_lo(placements(self.0@), self.0@.len() as int);
                let hi = bbox_hi(placements(self.0@), self.0@.len() as int);
                &&& r.0.spec_size().0 == hi.0 - lo.0
                &&& r.0.spec_size().1 == hi.1 - lo.1
                &&& r.0.spec_size().2 == hi.2 - lo.2
                &&& r.1.0 == -lo.0 && r.1.1 == -lo.1 && r.1.2 == -lo.2
                &&& forall|q: (int, int, int)|
                    in_bounds(r.0.spec_size(), q) ==> #[trigger] r.0.cell(q) == unified_last(
                        self.0@,
                        lo,
                        self.0@.len() as int,
                        q,
                    )
            },
    {
        let ghost parts = self.0@;
        let keep_new = |v: V, old: V| -> (r: V)
            ensures
                r == v,
            { v };
        let r = self.unify_with(keep_new);
        proof {
            if parts.len() > 0 {
                let lo = bbox_lo(placements(parts), parts.len() as int);
                assert forall|q: (int, int, int)| in_bounds(r.0.spec_size(), q) implies #[trigger] r.0.cell(
                    q,
                ) == unified_last(parts, lo, parts.len() as int, q) by {
                    lemma_unified_overwrite(parts, keep_new, lo, parts.len() as int, q, r.0.cell(q));
                }
            }
        }
        r
    }

    /// Combines the volumes into one that spans all of them, with a function
    /// that takes (cell, old cell) and returns the cell to use; also returns
    /// where the origin of the offsets lies in the combined volume.
    pub fn unify_with<F: Fn(V, V) -> V>(self, f: F) -> (r: (Dyna<V>, (i32, i32, i32)))
        requires
            forall|i: int| 0 <= i < self.0@.len() ==> (#[trigger] self.0@[i]).0.wf(),
            unify_fits(placements(self.0@)),
            forall|a: V, b: V| #[trigger] f.requires((a, b)),
        ensures
            r.0.wf(),
            self.0@.len() == 0 ==> r.0.spec_size() == (0u32, 0u32, 0u32) && r.1 == (0i32, 0i32, 0i32),
            self.0@.len() > 0 ==> {
                let lo = bbox_lo(placements(self.0@), self.0@.len() as int);
                let hi = bbox_hi(placements(self.0@), self.0@.len() as int);
                &&& r.0.spec_size().0 == hi.0 - lo.0
                &&& r.0.spec_size().1 == hi.1 - lo.1
                &&& r.0.spec_size().2 == hi.2 - lo.2
                &&& r.1.0 == -lo.0 && r.1.1 == -lo.1 && r.1.2 == -lo.2
                &&& forall|q: (int, int, int)|
                    in_bounds(r.0.spec_size(), q) ==> unified(
                        self.0@,
                        f,
                        lo,
                        self.0@.len() as int,
                        q,
                        #[trigger] r.0.cell(q),
                    )
            },
    {
        let parts = self.0;
        let n = parts.len();
        if n == 0 {
            assert(volume((0u32, 0u32, 0u32)) == 0) by (nonlinear_arith);
            return (Dyna::filled((0, 0, 0), V::default_non_filled()), (0, 0, 0));
        }
        // Determine the size of the new volume.
        let mut lo: (i32, i32, i32) = parts[0].1;
        let s0 = parts[0].0.size();
        assert(placements(parts@)[0] == (parts@[0].0.spec_size(), parts@[0].1));
        assert(far_corner(placements(parts@)[0]).0 <= i32::MAX);
        let mut hi: (i32, i32, i32) = (
            parts[0].1.0 + s0.0 as i32,
            parts[0].1.1 + s0.1 as i32,
            parts[0].1.2 + s0.2 as i32,
        );
        let mut k: usize = 1;
        while k < n
            invariant
                1 <= k <= n,
                n == parts@.len(),
                forall|j: int| 0 <= j < parts@.len() ==> (#[trigger] parts@[j]).0.wf(),
                unify_fits(placements(parts@)),
                (lo.0 as int, lo.1 as int, lo.2 as int) == bbox_lo(placements(parts@), k as int),
                (hi.0 as int, hi.1 as int, hi.2 as int) == bbox_hi(placements(parts@), k as int),
            decreases n - k,
        {
            let o = parts[k].1;
            let sz = parts[k].0.size();
            assert(placements(parts@)[k as int] == (parts@[k as int].0.spec_size(), parts@[k as int].1));
            assert(far_corner(placements(parts@)[k as int]).0 <= i32::MAX);
            let c = (o.0 + sz.0 as i32, o.1 + sz.1 as i32, o.2 + sz.2 as i32);
            lo = (
                if o.0 < lo.0 { o.0 } else { lo.0 },
                if o.1 < lo.1 { o.1 } else { lo.1 },
                if o.2 < lo.2 { o.2 } else { lo.2 },
            );
            hi = (
                if c.0 > hi.0 { c.0 } else { hi.0 },
                if c.1 > hi.1 { c.1 } else { hi.1 },
                if c.2 > hi.2 { c.2 } else { hi.2 },
            );
            k = k + 1;
        }
        proof {
            lemma_bbox(placements(parts@), n as int);
        }
        let size: (u32, u32, u32) = ((hi.0 - lo.0) as u32, (hi.1 - lo.1) as u32, (hi.2 - lo.2) as u32);
        let origin: (i32, i32, i32) = (-lo.0, -lo.1, -lo.2);
        let ghost glo = (lo.0 as int, lo.1 as int, lo.2 as int);
        let mut combined = Dyna::filled(size, V::default_non_filled());
        // Copy the volumes into the combined one.
        let mut i: usize = 0;
        while i < n
            invariant
                i <= n,
                n == parts@.len(),
                forall|j: int| 0 <= j < parts@.len() ==> (#[trigger] parts@[j]).0.wf(),
                unify_fits(placements(parts@)),
                forall|a: V, b: V| #[trigger] f.requires((a, b)),
                glo == bbox_lo(placements(parts@), n as int),
                glo == (lo.0 as int, lo.1 as int, lo.2 as int),
                origin.0 == -lo.0 && origin.1 == -lo.1 && origin.2 == -lo.2,
                size.0 == bbox_hi(placements(parts@), n as int).0 - glo.0,
                size.1 == bbox_hi(placements(parts@), n as int).1 - glo.1,
                size.2 == bbox_hi(placements(parts@), n as int).2 - glo.2,
                combined.wf(),
                combined.spec_size() == size,
                forall|j: int|
                    0 <= j < n ==> {
                        let o = offset_of(#[trigger] placements(parts@)[j]);
                        let c = far_corner(placements(parts@)[j]);
                        &&& glo.0 <= o.0 && glo.1 <= o.1 && glo.2 <= o.2
                        &&& c.0 <= bbox_hi(placements(parts@), n as int).0 && c.1 <= bbox_hi(placements(parts@), n as int).1
                            && c.2 <= bbox_hi(placements(parts@), n as int).2
                    },
                forall|q: (int, int, int)|
                    in_bounds(size, q) ==> unified(
                        parts@,
                        f,
                        glo,
                        i as int,
                        q,
                        #[trigger] combined.cell(q),
                    ),
            decreases n - i,
        {
            let dyna = &parts[i].0;
            let offset = parts[i].1;
            let dsize = dyna.size();
            assert(placements(parts@)[i as int] == (parts@[i as int].0.spec_size(), parts@[i as int].1));
            assert(offset_of(placements(parts@)[i as int]).0 >= glo.0);
            let base = (origin.0 + offset.0, origin.1 + offset.1, origin.2 + offset.2);
            let mut z: u32 = 0;
            while z < dsize.2
                invariant
                    i < n,
                    n == parts@.len(),
                    forall|j: int| 0 <= j < parts@.len() ==> (#[trigger] parts@[j]).0.wf(),
                unify_fits(placements(parts@)),
                    forall|a: V, b: V| #[trigger] f.requires((a, b)),
                    *dyna == parts@[i as int].0,
                    offset == parts@[i as int].1,
                    dsize == dyna.spec_size(),
                    dyna.wf(),
                    base.0 == offset.0 - lo.0 && base.1 == offset.1 - lo.1 && base.2 == offset.2 - lo.2,
                    glo == (lo.0 as int, lo.1 as int, lo.2 as int),
                    size.0 <= i32::MAX && size.1 <= i32::MAX && size.2 <= i32::MAX,
                    0 <= base.0 && base.0 + dsize.0 <= size.0,
                    0 <= base.1 && base.1 + dsize.1 <= size.1,
                    0 <= base.2 && base.2 + dsize.2 <= size.2,
                    combined.wf(),
                    combined.spec_size() == size,
                    z <= dsize.2,
                    forall|q: (int, int, int)|
                        in_bounds(size, q) ==> if in_bounds(
                            dsize,
                            (q.0 - base.0, q.1 - base.1, q.2 - base.2),
                        ) && q.2 - base.2 < z {
                            unified(parts@, f, glo, i + 1, q, #[trigger] combined.cell(q))
                        } else {
                            unified(parts@, f, glo, i as int, q, combined.cell(q))
                        },
                decreases dsize.2 - z,
            {
                let mut y: u32 = 0;
                while y < dsize.1
                    invariant
                        i < n,
                        n == parts@.len(),
                        forall|j: int| 0 <= j < parts@.len() ==> (#[trigger] parts@[j]).0.wf(),
                unify_fits(placements(parts@)),
                        forall|a: V, b: V| #[trigger] f.requires((a, b)),
                        *dyna == parts@[i as int].0,
                        offset == parts@[i as int].1,
                        dsize == dyna.spec_size(),
                        dyna.wf(),
                        base.0 == offset.0 - lo.0 && base.1 == offset.1 - lo.1 && base.2 == offset.2 - lo.2,
                        glo == (lo.0 as int, lo.1 as int, lo.2 as int),
                        size.0 <= i32::MAX && size.1 <= i32::MAX && size.2 <= i32::MAX,
                    0 <= base.0 && base.0 + dsize.0 <= size.0,
                        0 <= base.1 && base.1 + dsize.1 <= size.1,
                        0 <= base.2 && base.2 + dsize.2 <= size.2,
                        combined.wf(),
                        combined.spec_size() == size,
                        z < dsize.2,
                        y <= dsize.1,
                        forall|q: (int, int, int)|
                            in_bounds(size, q) ==> if in_bounds(
                                dsize,
                                (q.0 - base.0, q.1 - base.1, q.2 - base.2),
                            ) && (q.2 - base.2 < z || (q.2 - base.2 == z && q.1 - base.1 < y)) {
                                unified(parts@, f, glo, i + 1, q, #[trigger] combined.cell(q))
                            } else {
                                unified(parts@, f, glo, i as int, q, combined.cell(q))
                            },
                    decreases dsize.1 - y,
                {
                    let mut x: u32 = 0;
                    while x < dsize.0
                        invariant
                            i < n,
                            n == parts@.len(),
                            forall|j: int| 0 <= j < parts@.len() ==> (#[trigger] parts@[j]).0.wf(),
                unify_fits(placements(parts@)),
                            forall|a: V, b: V| #[trigger] f.requires((a, b)),
                            *dyna == parts@[i as int].0,
                            offset == parts@[i as int].1,
                            dsize == dyna.spec_size(),
                            dyna.wf(),
                            base.0 == offset.0 - lo.0 && base.1 == offset.1 - lo.1 && base.2 == offset.2 - lo.2,
                            glo == (lo.0 as int, lo.1 as int, lo.2 as int),
                            size.0 <= i32::MAX && size.1 <= i32::MAX && size.2 <= i32::MAX,
                    0 <= base.0 && base.0 + dsize.0 <= size.0,
                            0 <= base.1 && base.1 + dsize.1 <= size.1,
                            0 <= base.2 && base.2 + dsize.2 <= size.2,
                            combined.wf(),
                            combined.spec_size() == size,
                            z < dsize.2,
                            y < dsize.1,
                            x <= dsize.0,
                            forall|q: (int, int, int)|
                                in_bounds(size, q) ==> if in_bounds(
                                    dsize,
                                    (q.0 - base.0, q.1 - base.1, q.2 - base.2),
                                ) && (q.2 - base.2 < z || (q.2 - base.2 == z && (q.1 - base.1 < y
                                    || (q.1 - base.1 == y && q.0 - base.0 < x)))) {
                                    unified(parts@, f, glo, i + 1, q, #[trigger] combined.cell(q))
                                } else {
                                    unified(parts@, f, glo, i as int, q, combined.cell(q))
                                },
                        decreases dsize.0 - x,
                    {
                        let p = (x as i32, y as i32, z as i32);
                        let vox = match dyna.get(p) {
                            Some(v) => v,
                            None => {
                                proof {
                                    assert(false);
                                }
                                V::default_non_filled()
                            },
                        };
                        let cell_pos = (base.0 + p.0, base.1 + p.1, base.2 + p.2);
                        let ghost cq = (cell_pos.0 as int, cell_pos.1 as int, cell_pos.2 as int);
                        let ghost before = combined;
                        if vox.is_filled() {
                            let old_vox = match combined.get(cell_pos) {
                                Some(v) => v,
                                None => {
                                    proof {
                                        assert(false);
                                    }
                                    V::default_non_filled()
                                },
                            };
                            let new_vox = f(vox, old_vox);
                            combined.set(cell_pos, new_vox);
                            proof {
                                assert(covering(parts@, glo, i as int, cq) == Some(vox));
                                assert(unified(parts@, f, glo, i as int, cq, old_vox));
                                assert(unified(parts@, f, glo, i + 1, cq, new_vox));
                            }
                        } else {
                            proof {
                                assert(covering(parts@, glo, i as int, cq) is None);
                            }
                        }
                        proof {
                            assert forall|q: (int, int, int)| in_bounds(size, q) implies if in_bounds(
                                dsize,
                                (q.0 - base.0, q.1 - base.1, q.2 - base.2),
                            ) && (q.2 - base.2 < z || (q.2 - base.2 == z && (q.1 - base.1 < y || (
                            q.1 - base.1 == y && q.0 - base.0 < x + 1)))) {
                                unified(parts@, f, glo, i + 1, q, #[trigger] combined.cell(q))
                            } else {
                                unified(parts@, f, glo, i as int, q, combined.cell(q))
                            } by {
                                if q != cq {
                                    assert(combined.cell(q) == before.cell(q));
                                }
                            }
                        }
                        x = x + 1;
                    }
                    y = y + 1;
                }
                z = z + 1;
            }
            proof {
                assert forall|q: (int, int, int)| in_bounds(size, q) implies unified(
                    parts@,
                    f,
                    glo,
                    i + 1,
                    q,
                    #[trigger] combined.cell(q),
                ) by {
                    if !in_bounds(dsize, (q.0 - base.0, q.1 - base.1, q.2 - base.2)) {
                        assert(covering(parts@, glo, i as int, q) is None);
                    }
                }
            }
            i = i + 1;
        }
        (combined, origin)
    }
}

/// The size of the first model of a `.vox` file, or zero without models.
pub open spec fn first_model_size(d: &VoxData) -> (u32, u32, u32) {
    if d.models@.len() > 0 {
        d.models@[0].size
    } else {
        (0, 0, 0)
    }
}

/// The first model of `d` can be turned into a volume, mirrored when `flipped`.
pub open spec fn first_model_fits(d: &VoxData, flipped: bool) -> bool {
    d.models@.len() > 0 ==> ({
        let m = d.models@[0];
        &&& volume(m.size) <= usize::MAX
        &&& forall|j: int|
            0 <= j < m.voxels@.len() && (m.voxels@[j].i as int) < d.palette@.len() ==> voxel_fits(
                m.size,
                #[trigger] m.voxels@[j],
                flipped,
            )
    })
}

/// `s` is the volume of the first model of `d`, mirrored when `flipped`.
pub open spec fn is_first_model_volume(s: Segment, d: &VoxData, flipped: bool) -> bool {
    &&& s.wf()
    &&& s.spec_size() == first_model_size(d)
    &&& d.models@.len() > 0 ==> forall|p: (int, int, int)|
        in_bounds(d.models@[0].size, p) ==> #[trigger] s.cell(p) == segment_cell(
            d.models@[0].voxels@,
            d.palette@,
            d.models@[0].size,
            flipped,
            p,
            d.models@[0].voxels@.len() as int,
        )
}

impl Dyna<Cell> {
    /// Takes a list of voxel data, offsets, and x-mirror flags, and assembles
    /// them into a combined segment: the first model of each, placed at its
    /// offset, later ones drawn over earlier ones.  Also returns where the
    /// origin of the offsets lies in the combined segment.
    pub fn from_voxes(data: &[(&VoxData, (i32, i32, i32), bool)]) -> (r: (Segment, (i32, i32, i32)))
        requires
            forall|i: int| 0 <= i < data@.len() ==> first_model_fits(#[trigger] data@[i].0, data@[i].2),
            unify_fits(Seq::new(data@.len(), |i: int| (first_model_size(data@[i].0), data@[i].1))),
        ensures
            exists|parts: Seq<(Segment, (i32, i32, i32))>|
                #![trigger placements(parts)]
                {
                    &&& parts.len() == data@.len()
                    &&& forall|i: int|
                        0 <= i < parts.len() ==> (#[trigger] parts[i]).1 == data@[i].1
                            && is_first_model_volume(parts[i].0, data@[i].0, data@[i].2)
                    &&& r.0.wf()
                    &&& parts.len() == 0 ==> r.0.spec_size() == (0u32, 0u32, 0u32) && r.1 == (
                        0i32,
                        0i32,
                        0i32,
                    )
                    &&& parts.len() > 0 ==> {
                        let lo = bbox_lo(placements(parts), parts.len() as int);
                        let hi = bbox_hi(placements(parts), parts.len() as int);
                        &&& r.0.spec_size().0 == hi.0 - lo.0
                        &&& r.0.spec_size().1 == hi.1 - lo.1
                        &&& r.0.spec_size().2 == hi.2 - lo.2
                        &&& r.1.0 == -lo.0 && r.1.1 == -lo.1 && r.1.2 == -lo.2
                        &&& forall|q: (int, int, int)|
                            in_bounds(r.0.spec_size(), q) ==> #[trigger] r.0.cell(q)
                                == unified_last(parts, lo, parts.len() as int, q)
                    }
                },
    {
        let mut union: DynaUnionizer<Cell> = DynaUnionizer::new();
        let mut k: usize = 0;
        while k < data.len()
            invariant
                k <= data@.len(),
                forall|i: int| 0 <= i < data@.len() ==> first_model_fits(#[trigger] data@[i].0, data@[i].2),
                union.0@.len() == k,
                forall|i: int|
                    0 <= i < k ==> (#[trigger] union.0@[i]).1 == data@[i].1 && is_first_model_volume(
                        union.0@[i].0,
                        data@[i].0,
                        data@[i].2,
                    ),
            decreases data.len() - k,
        {
            let (datum, offset, xmirror) = data[k];
            let seg = Dyna::<Cell>::from_vox(datum, xmirror, 0);
            union = union.add(seg, offset);
            k = k + 1;
        }
        let ghost parts = union.0@;
        assert(placements(parts) =~= Seq::new(
            data@.len(),
            |i: int| (first_model_size(data@[i].0), data@[i].1),
        ));
        let r = union.unify();
        assert(forall|i: int|
            0 <= i < parts.len() ==> (#[trigger] parts[i]).1 == data@[i].1 && is_first_model_volume(
                parts[i].0,
                data@[i].0,
                data@[i].2,
            ));
        r
    }
}

} // verus!
