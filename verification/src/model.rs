use vstd::prelude::*;

use crate::tool::ShapeKind;

verus! {

/// A point on the canvas.
#[derive(Copy, Debug)]
pub struct Point<F> {
    pub x: F,
    pub y: F,
}

/// An RGBA colour, each channel a scalar.
#[derive(Copy, Debug)]
pub struct Color<F> {
    pub r: F,
    pub g: F,
    pub b: F,
    pub a: F,
}

/// A free-hand stroke: its input points, colour and width.
#[derive(Debug)]
pub struct Stroke<F> {
    pub points: Vec<Point<F>>,
    pub color: Color<F>,
    pub width: F,
    pub is_highlighter: bool,
}

/// A burst of spray particles.
#[derive(Debug)]
pub struct Spray<F> {
    pub points: Vec<Point<F>>,
    pub color: Color<F>,
    pub radius: F,
}

/// A geometric shape spanned by two corner points.
#[derive(Copy, Debug)]
pub struct Shape<F> {
    pub kind: ShapeKind,
    pub x1: F,
    pub y1: F,
    pub x2: F,
    pub y2: F,
    pub color: Color<F>,
    pub width: F,
}

/// A pasted or inserted image on the canvas.
#[derive(Debug)]
pub struct CanvasImage<F> {
    pub x: F,
    pub y: F,
    pub width: F,
    pub height: F,
    /// Raw PNG bytes of the image.
    pub png_data: Vec<u8>,
}

/// A text box (or, with a background colour, a sticky note) on the canvas.
#[derive(Debug)]
pub struct CanvasText<F> {
    pub text: String,
    pub x: F,
    pub y: F,
    pub font_family: String,
    pub font_size: F,
    pub color: Color<F>,
    pub bg_color: Option<Color<F>>,
}

/// A table inserted on the canvas; `cells[row][col]` holds the text of a cell.
#[derive(Debug)]
pub struct CanvasTable<F> {
    pub x: F,
    pub y: F,
    pub rows: usize,
    pub cols: usize,
    pub cell_w: F,
    pub cell_h: F,
    pub cells: Vec<Vec<String>>,
}

/// What a stroke shows: its points, colour, width and highlighter flag.
pub type StrokeView<F> = (Seq<Point<F>>, Color<F>, F, bool);

/// What a spray burst shows: its particles, colour and radius.
pub type SprayView<F> = (Seq<Point<F>>, Color<F>, F);

/// What an image shows: its position, size and PNG bytes.
pub type ImageView<F> = (F, F, F, F, Seq<u8>);

/// What a text box shows: text, position, font family, font size, colour, background.
pub type TextView<F> = (Seq<char>, F, F, Seq<char>, F, Color<F>, Option<Color<F>>);

/// What a table shows: position, rows, columns, cell size and the text of each cell.
pub type TableView<F> = (F, F, usize, usize, F, F, Seq<Seq<Seq<char>>>);

impl<F> View for Stroke<F> {
    type V = StrokeView<F>;

    open spec fn view(&self) -> StrokeView<F> {
        (self.points@, self.color, self.width, self.is_highlighter)
    }
}

impl<F> View for Spray<F> {
    type V = SprayView<F>;

    open spec fn view(&self) -> SprayView<F> {
        (self.points@, self.color, self.radius)
    }
}

impl<F> View for Shape<F> {
    type V = Shape<F>;

    open spec fn view(&self) -> Shape<F> {
        *self
    }
}

impl<F> View for CanvasImage<F> {
    type V = ImageView<F>;

    open spec fn view(&self) -> ImageView<F> {
        (self.x, self.y, self.width, self.height, self.png_data@)
    }
}

impl<F> View for CanvasText<F> {
    type V = TextView<F>;

    open spec fn view(&self) -> TextView<F> {
        (
            self.text@,
            self.x,
            self.y,
            self.font_family@,
            self.font_size,
            self.color,
            self.bg_color,
        )
    }
}

/// The text of each cell, row by row.
pub open spec fn cells_view(cells: Seq<Vec<String>>) -> Seq<Seq<Seq<char>>> {
    cells.map_values(|row: Vec<String>| row@.map_values(|c: String| c@))
}

impl<F> View for CanvasTable<F> {
    type V = TableView<F>;

    open spec fn view(&self) -> TableView<F> {
        (self.x, self.y, self.rows, self.cols, self.cell_w, self.cell_h, cells_view(self.cells@))
    }
}

impl<F: Copy> Clone for Point<F> {
    fn clone(&self) -> (p: Self)
        ensures
            p == *self,
    {
        Point { x: self.x, y: self.y }
    }
}

impl<F: Copy> Clone for Color<F> {
    fn clone(&self) -> (c: Self)
        ensures
            c == *self,
    {
        Color { r: self.r, g: self.g, b: self.b, a: self.a }
    }
}

impl<F: Copy> Clone for Shape<F> {
    fn clone(&self) -> (s: Self)
        ensures
            s == *self,
    {
        *self
    }
}

/// A copy of a list of points.
fn copy_points<F: Copy>(points: &Vec<Point<F>>) -> (out: Vec<Point<F>>)
    ensures
        out@ == points@,
{
    let out = points.clone();
    assert(out@ =~= points@);
    out
}

impl<F: Copy> Clone for Stroke<F> {
    fn clone(&self) -> (s: Self)
        ensures
            s@ == self@,
    {
        Stroke {
            points: copy_points(&self.points),
            color: self.color,
            width: self.width,
            is_highlighter: self.is_highlighter,
        }
    }
}

impl<F: Copy> Clone for Spray<F> {
    fn clone(&self) -> (s: Self)
        ensures
            s@ == self@,
    {
        Spray { points: copy_points(&self.points), color: self.color, radius: self.radius }
    }
}

impl<F: Copy> Clone for CanvasImage<F> {
    fn clone(&self) -> (i: Self)
        ensures
            i@ == self@,
    {
        let png_data = self.png_data.clone();
        assert(png_data@ =~= self.png_data@);
        CanvasImage { x: self.x, y: self.y, width: self.width, height: self.height, png_data }
    }
}

impl<F: Copy> Clone for CanvasText<F> {
    fn clone(&self) -> (t: Self)
        ensures
            t@ == self@,
    {
        CanvasText {
            text: self.text.clone(),
            x: self.x,
            y: self.y,
            font_family: self.font_family.clone(),
            font_size: self.font_size,
            color: self.color,
            bg_color: self.bg_color,
        }
    }
}

/// A copy of the cells of a table.
fn copy_cells(cells: &Vec<Vec<String>>) -> (out: Vec<Vec<String>>)
    ensures
        cells_view(out@) == cells_view(cells@),
{
    let mut out: Vec<Vec<String>> = Vec::new();
    let mut r: usize = 0;
    while r < cells.len()
        invariant
            r <= cells@.len(),
            out@.len() == r,
            forall|i: int| 0 <= i < r ==> (#[trigger] out@[i])@.map_values(|c: String| c@)
                == cells@[i]@.map_values(|c: String| c@),
        decreases cells@.len() - r,
    {
        let src: &Vec<String> = &cells[r];
        let mut row: Vec<String> = Vec::new();
        let mut c: usize = 0;
        while c < src.len()
            invariant
                c <= src@.len(),
                row@.len() == c,
                forall|j: int| 0 <= j < c ==> (#[trigger] row@[j])@ == src@[j]@,
            decreases src@.len() - c,
        {
            row.push(src[c].clone());
            c = c + 1;
        }
        assert(row@.map_values(|c: String| c@) =~= src@.map_values(|c: String| c@));
        out.push(row);
        r = r + 1;
    }
    assert(cells_view(out@) =~= cells_view(cells@));
    out
}

impl<F: Copy> Clone for CanvasTable<F> {
    fn clone(&self) -> (t: Self)
        ensures
            t@ == self@,
    {
        CanvasTable {
            x: self.x,
            y: self.y,
            rows: self.rows,
            cols: self.cols,
            cell_w: self.cell_w,
            cell_h: self.cell_h,
            cells: copy_cells(&self.cells),
        }
    }
}

/// A canvas item whose clones show what the original shows.
pub trait CanvasItem: View + Clone + Sized {
    /// A clone of `a` shows what `a` shows.
    proof fn lemma_clone_shows_same(a: Self, b: Self)
        requires
            cloned(a, b),
        ensures
            b@ == a@,
    ;
}

impl<F: Copy> CanvasItem for Stroke<F> {
    proof fn lemma_clone_shows_same(a: Self, b: Self) {
    }
}

impl<F: Copy> CanvasItem for Shape<F> {
    proof fn lemma_clone_shows_same(a: Self, b: Self) {
    }
}

impl<F: Copy> CanvasItem for CanvasImage<F> {
    proof fn lemma_clone_shows_same(a: Self, b: Self) {
    }
}

impl<F: Copy> CanvasItem for CanvasTable<F> {
    proof fn lemma_clone_shows_same(a: Self, b: Self) {
    }
}

impl<F: Copy> CanvasItem for CanvasText<F> {
    proof fn lemma_clone_shows_same(a: Self, b: Self) {
    }
}

impl<F: From<u8>> CanvasTable<F> {
    /// A table of `rows` by `cols` empty cells at (`x`, `y`), each cell 120 wide and 36 high.
    pub fn new(rows: usize, cols: usize, x: F, y: F) -> (t: CanvasTable<F>)
        ensures
            t.rows == rows,
            t.cols == cols,
            t.x == x,
            t.y == y,
            call_ensures(F::from, (120u8,), t.cell_w),
            call_ensures(F::from, (36u8,), t.cell_h),
            t.cells@.len() == rows,
            forall|r: int| 0 <= r < rows ==> (#[trigger] t.cells@[r])@.len() == cols,
            forall|r: int, c: int|
                0 <= r < rows && 0 <= c < cols ==> (#[trigger] t.cells@[r]@[c])@.len() == 0,
    {
        let mut cells: Vec<Vec<String>> = Vec::new();
        let mut r: usize = 0;
        while r < rows
            invariant
                r <= rows,
                cells@.len() == r,
                forall|i: int| 0 <= i < r ==> (#[trigger] cells@[i])@.len() == cols,
                forall|i: int, c: int|
                    0 <= i < r && 0 <= c < cols ==> (#[trigger] cells@[i]@[c])@.len() == 0,
            decreases rows - r,
        {
            let mut row: Vec<String> = Vec::new();
            let mut c: usize = 0;
            while c < cols
                invariant
                    c <= cols,
                    row@.len() == c,
                    forall|j: int| 0 <= j < c ==> (#[trigger] row@[j])@.len() == 0,
                decreases cols - c,
            {
                row.push(String::new());
                c = c + 1;
            }
            cells.push(row);
            r = r + 1;
        }
        CanvasTable {
            x,
            y,
            rows,
            cols,
            cell_w: F::from(120u8),
            cell_h: F::from(36u8),
            cells,
        }
    }
}

} // verus!
