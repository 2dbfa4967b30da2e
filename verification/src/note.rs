use vstd::prelude::*;

use std::collections::HashSet;

use crate::model::{
    CanvasImage, CanvasTable, CanvasText, Color, ImageView, Shape, Spray, SprayView, Stroke,
    StrokeView, TableView, TextView,
};
use crate::selection::{
    count_selected, indices_below, indices_fit, lemma_cut_and_paste_keeps_items, lemma_selection_split, remove_selected, selected_desc, take_selected,
    without_selected, Selection,
};

verus! {

/// How many snapshots each of a note's undo and redo stacks keeps.
pub const HISTORY_LIMIT: usize = 50;

/// The drawable content of a note: what one step of undo or redo restores.
#[derive(Debug)]
pub struct Snapshot<F> {
    pub bg_color: Option<Color<F>>,
    pub rule_gap: Option<F>,
    pub strokes: Vec<Stroke<F>>,
    pub shapes: Vec<Shape<F>>,
    pub images: Vec<CanvasImage<F>>,
    pub tables: Vec<CanvasTable<F>>,
    pub texts: Vec<CanvasText<F>>,
    pub sprays: Vec<Spray<F>>,
}

/// One page of drawing: its items, and the history of earlier and undone contents.
#[derive(Debug)]
pub struct Note<F> {
    pub name: String,
    pub bg_color: Option<Color<F>>,
    pub rule_gap: Option<F>,
    pub strokes: Vec<Stroke<F>>,
    pub shapes: Vec<Shape<F>>,
    pub images: Vec<CanvasImage<F>>,
    pub tables: Vec<CanvasTable<F>>,
    pub texts: Vec<CanvasText<F>>,
    pub sprays: Vec<Spray<F>>,
    /// Earlier contents, the most recent last.
    pub undo_stack: Vec<Snapshot<F>>,
    /// Undone contents, the most recently undone last.
    pub redo_stack: Vec<Snapshot<F>>,
    /// Counts the history operations applied to the note.
    pub revision: u64,
}

/// `s` with `x` pushed on top; when that exceeds the limit, the oldest entry is dropped.
pub open spec fn bounded_push<T>(s: Seq<T>, x: T) -> Seq<T> {
    if s.len() + 1 > HISTORY_LIMIT {
        s.push(x).drop_first()
    } else {
        s.push(x)
    }
}

/// What the content of a note shows: its background, rules, and what each item shows.
pub struct PageView<F> {
    pub bg_color: Option<Color<F>>,
    pub rule_gap: Option<F>,
    pub strokes: Seq<StrokeView<F>>,
    pub shapes: Seq<Shape<F>>,
    pub images: Seq<ImageView<F>>,
    pub tables: Seq<TableView<F>>,
    pub texts: Seq<TextView<F>>,
    pub sprays: Seq<SprayView<F>>,
}

impl<F> View for Snapshot<F> {
    type V = PageView<F>;

    open spec fn view(&self) -> PageView<F> {
        PageView {
            bg_color: self.bg_color,
            rule_gap: self.rule_gap,
            strokes: self.strokes@.map_values(|x: Stroke<F>| x@),
            shapes: self.shapes@,
            images: self.images@.map_values(|x: CanvasImage<F>| x@),
            tables: self.tables@.map_values(|x: CanvasTable<F>| x@),
            texts: self.texts@.map_values(|x: CanvasText<F>| x@),
            sprays: self.sprays@.map_values(|x: Spray<F>| x@),
        }
    }
}

/// What a finished drag adds: the item, if there is one.
pub open spec fn present<T>(item: Option<T>) -> Seq<T> {
    match item {
        Some(x) => seq![x],
        None => Seq::empty(),
    }
}

/// The stroke that a finished drag adds: only one that holds points.
pub open spec fn drawn_stroke<F>(stroke: Option<Stroke<F>>) -> Seq<Stroke<F>> {
    match stroke {
        Some(s) => if s.points@.len() > 0 { seq![s] } else { Seq::empty() },
        None => Seq::empty(),
    }
}

/// The spray burst that a finished drag adds: only one that holds points.
pub open spec fn drawn_spray<F>(spray: Option<Spray<F>>) -> Seq<Spray<F>> {
    match spray {
        Some(s) => if s.points@.len() > 0 { seq![s] } else { Seq::empty() },
        None => Seq::empty(),
    }
}

impl<F> Note<F> {
    /// Whether the note holds at least one stroke, shape, image, table or text.
    pub fn is_pastable(&self) -> (b: bool)
        ensures
            b == self.has_pastable(),
    {
        self.strokes.len() > 0 || self.shapes.len() > 0 || self.images.len() > 0
            || self.tables.len() > 0 || self.texts.len() > 0
    }

    /// Whether a history operation may still be counted (`can_record`).
    pub fn is_recordable(&self) -> (b: bool)
        ensures
            b == self.can_record(),
    {
        self.revision < u64::MAX
    }

    /// Whether every selected position names an item of this note (`fits`).
    pub fn selection_fits(&self, sel: &Selection) -> (b: bool)
        ensures
            b == self.fits(*sel),
    {
        indices_fit(&sel.strokes, self.strokes.len()) && indices_fit(&sel.shapes, self.shapes.len())
            && indices_fit(&sel.images, self.images.len()) && indices_fit(
            &sel.tables,
            self.tables.len(),
        ) && indices_fit(&sel.texts, self.texts.len())
    }

    /// A blank note with no history, named `name`.
    pub fn new(name: &str) -> (n: Note<F>)
        ensures
            n.name@ == name@,
            n.is_fresh(),
    {
        Note {
            name: String::from_str(name),
            bg_color: None,
            rule_gap: None,
            strokes: Vec::new(),
            shapes: Vec::new(),
            images: Vec::new(),
            tables: Vec::new(),
            texts: Vec::new(),
            sprays: Vec::new(),
            undo_stack: Vec::new(),
            redo_stack: Vec::new(),
            revision: 0,
        }
    }

    /// The current drawable content of the note.
    pub open spec fn page(self) -> Snapshot<F> {
        Snapshot {
            bg_color: self.bg_color,
            rule_gap: self.rule_gap,
            strokes: self.strokes,
            shapes: self.shapes,
            images: self.images,
            tables: self.tables,
            texts: self.texts,
            sprays: self.sprays,
        }
    }

    /// Neither history stack holds more than the limit.
    pub open spec fn wf(self) -> bool {
        &&& self.undo_stack@.len() <= HISTORY_LIMIT
        &&& self.redo_stack@.len() <= HISTORY_LIMIT
    }

    /// A history operation may still be counted.
    pub open spec fn can_record(self) -> bool {
        self.revision < u64::MAX
    }

    /// `new` keeps `old`'s name, has a copy of `old`'s content on top of its undo
    /// stack, nothing to redo, and one more counted operation: the history part of any edit.
    pub open spec fn saved_for_undo(old: Note<F>, new: Note<F>) -> bool {
        &&& new.name == old.name
        &&& new.undo_stack@.len() > 0
        &&& new.undo_stack@.last()@ == old.page()@
        &&& new.undo_stack@ == bounded_push(old.undo_stack@, new.undo_stack@.last())
        &&& new.redo_stack@ == Seq::<Snapshot<F>>::empty()
        &&& new.revision == old.revision + 1
    }

    /// `new` has `old`'s name and history: only its content may differ.
    pub open spec fn history_kept(old: Note<F>, new: Note<F>) -> bool {
        &&& new.name == old.name
        &&& new.undo_stack == old.undo_stack
        &&& new.redo_stack == old.redo_stack
        &&& new.revision == old.revision
    }

    /// `new` is `old` after recording its content for undo.
    pub open spec fn recorded(old: Note<F>, new: Note<F>) -> bool {
        &&& Self::saved_for_undo(old, new)
        &&& new.page() == old.page()
    }

    /// Every selected position names an item of this note.
    pub open spec fn fits(self, sel: Selection) -> bool {
        &&& indices_below(sel.strokes@, self.strokes@.len())
        &&& indices_below(sel.shapes@, self.shapes@.len())
        &&& indices_below(sel.images@, self.images@.len())
        &&& indices_below(sel.tables@, self.tables@.len())
        &&& indices_below(sel.texts@, self.texts@.len())
    }

    /// The note holds at least one stroke, shape, image, table or text.
    pub open spec fn has_pastable(self) -> bool {
        ||| self.strokes@.len() > 0
        ||| self.shapes@.len() > 0
        ||| self.images@.len() > 0
        ||| self.tables@.len() > 0
        ||| self.texts@.len() > 0
    }

    /// `new` is `old` after `commit_drawing(stroke, spray, shape)`.
    pub open spec fn drawing_committed(
        old: Note<F>,
        new: Note<F>,
        stroke: Option<Stroke<F>>,
        spray: Option<Spray<F>>,
        shape: Option<Shape<F>>,
    ) -> bool {
        &&& Self::saved_for_undo(old, new)
        &&& new.strokes@ == old.strokes@ + drawn_stroke(stroke)
        &&& new.sprays@ == old.sprays@ + drawn_spray(spray)
        &&& new.shapes@ == old.shapes@ + present(shape)
        &&& new.bg_color == old.bg_color
        &&& new.rule_gap == old.rule_gap
        &&& new.images == old.images
        &&& new.tables == old.tables
        &&& new.texts == old.texts
    }

    /// `new` is `old` after `delete_selected(sel)`.
    pub open spec fn selection_deleted(old: Note<F>, new: Note<F>, sel: Selection) -> bool {
        &&& Self::saved_for_undo(old, new)
        &&& new.strokes@ == without_selected(old.strokes@, sel.strokes@)
        &&& new.shapes@ == without_selected(old.shapes@, sel.shapes@)
        &&& new.images@ == without_selected(old.images@, sel.images@)
        &&& new.tables@ == without_selected(old.tables@, sel.tables@)
        &&& new.texts@ == without_selected(old.texts@, sel.texts@)
        &&& new.bg_color == old.bg_color
        &&& new.rule_gap == old.rule_gap
        &&& new.sprays == old.sprays
    }

    /// `clip` holds what `cut_selected(sel)` takes out of `old`.
    pub open spec fn is_cut_from(clip: Note<F>, old: Note<F>, sel: Selection) -> bool {
        &&& clip.name@.len() == 0
        &&& clip.bg_color.is_none()
        &&& clip.rule_gap.is_none()
        &&& clip.strokes@ == selected_desc(old.strokes@, sel.strokes@)
        &&& clip.shapes@ == selected_desc(old.shapes@, sel.shapes@)
        &&& clip.images@ == selected_desc(old.images@, sel.images@)
        &&& clip.tables@ == selected_desc(old.tables@, sel.tables@)
        &&& clip.texts@ == selected_desc(old.texts@, sel.texts@)
        &&& clip.sprays@.len() == 0
        &&& clip.undo_stack@.len() == 0
        &&& clip.redo_stack@.len() == 0
        &&& clip.revision == 0
    }

    /// `new` is `old` after `paste_items(clip)` pasted something.
    pub open spec fn items_pasted(old: Note<F>, new: Note<F>, clip: Note<F>) -> bool {
        &&& Self::saved_for_undo(old, new)
        &&& new.strokes@ == old.strokes@ + clip.strokes@
        &&& new.shapes@ == old.shapes@ + clip.shapes@
        &&& new.images@ == old.images@ + clip.images@
        &&& new.tables@ == old.tables@ + clip.tables@
        &&& new.texts@ == old.texts@ + clip.texts@
        &&& new.bg_color == old.bg_color
        &&& new.rule_gap == old.rule_gap
        &&& new.sprays == old.sprays
    }

    /// The note has no background, no rules and no items.
    pub open spec fn is_blank_page(self) -> bool {
        &&& self.bg_color.is_none()
        &&& self.rule_gap.is_none()
        &&& self.strokes@.len() == 0
        &&& self.shapes@.len() == 0
        &&& self.images@.len() == 0
        &&& self.tables@.len() == 0
        &&& self.texts@.len() == 0
        &&& self.sprays@.len() == 0
    }

    /// A blank note with no history.
    pub open spec fn is_fresh(self) -> bool {
        &&& self.is_blank_page()
        &&& self.undo_stack@.len() == 0
        &&& self.redo_stack@.len() == 0
        &&& self.revision == 0
    }

    /// `new` is `old` after one step of undo.
    pub open spec fn undone(old: Note<F>, new: Note<F>) -> bool {
        &&& new.name == old.name
        &&& new.revision == old.revision + 1
        &&& if old.undo_stack@.len() == 0 {
            &&& new.page() == old.page()
            &&& new.undo_stack@ == old.undo_stack@
            &&& new.redo_stack@ == old.redo_stack@
        } else {
            &&& new.page() == old.undo_stack@.last()
            &&& new.undo_stack@ == old.undo_stack@.drop_last()
            &&& new.redo_stack@ == bounded_push(old.redo_stack@, old.page())
        }
    }

    /// `new` is `old` after one step of redo.
    pub open spec fn redone(old: Note<F>, new: Note<F>) -> bool {
        &&& new.name == old.name
        &&& new.revision == old.revision + 1
        &&& if old.redo_stack@.len() == 0 {
            &&& new.page() == old.page()
            &&& new.undo_stack@ == old.undo_stack@
            &&& new.redo_stack@ == old.redo_stack@
        } else {
            &&& new.page() == old.redo_stack@.last()
            &&& new.redo_stack@ == old.redo_stack@.drop_last()
            &&& new.undo_stack@ == bounded_push(old.undo_stack@, old.page())
        }
    }

    /// Puts `p` in place of the note's content and gives back the content it had.
    fn exchange_page(&mut self, p: Snapshot<F>) -> (prev: Snapshot<F>)
        ensures
            prev == old(self).page(),
            final(self).page() == p,
            final(self).name == old(self).name,
            final(self).undo_stack == old(self).undo_stack,
            final(self).redo_stack == old(self).redo_stack,
            final(self).revision == old(self).revision,
    {
        let Snapshot {
            mut bg_color,
            mut rule_gap,
            mut strokes,
            mut shapes,
            mut images,
            mut tables,
            mut texts,
            mut sprays,
        } = p;
        std::mem::swap(&mut self.bg_color, &mut bg_color);
        std::mem::swap(&mut self.rule_gap, &mut rule_gap);
        std::mem::swap(&mut self.strokes, &mut strokes);
        std::mem::swap(&mut self.shapes, &mut shapes);
        std::mem::swap(&mut self.images, &mut images);
        std::mem::swap(&mut self.tables, &mut tables);
        std::mem::swap(&mut self.texts, &mut texts);
        std::mem::swap(&mut self.sprays, &mut sprays);
        Snapshot { bg_color, rule_gap, strokes, shapes, images, tables, texts, sprays }
    }

    /// Pushes `s` on `stack`, dropping the oldest entry when the limit is exceeded.
    fn push_bounded(stack: &mut Vec<Snapshot<F>>, s: Snapshot<F>)
        ensures
            final(stack)@ == bounded_push(old(stack)@, s),
    {
        stack.push(s);
        if stack.len() > HISTORY_LIMIT {
            stack.remove(0);
            assert(final(stack)@ =~= bounded_push(old(stack)@, s));
        }
    }

    /// Steps back to the most recently recorded content, keeping the present one for redo.
    /// With nothing to undo, only the revision counter moves.
    pub fn undo(&mut self)
        requires
            old(self).can_record(),
        ensures
            Self::undone(*old(self), *final(self)),
            old(self).wf() ==> final(self).wf(),
    {
        self.revision = self.revision + 1;
        if let Some(prev) = self.undo_stack.pop() {
            let cur = self.exchange_page(prev);
            Self::push_bounded(&mut self.redo_stack, cur);
        }
    }

    /// Steps forward to the most recently undone content, keeping the present one for undo.
    /// With nothing to redo, only the revision counter moves.
    pub fn redo(&mut self)
        requires
            old(self).can_record(),
        ensures
            Self::redone(*old(self), *final(self)),
            old(self).wf() ==> final(self).wf(),
    {
        self.revision = self.revision + 1;
        if let Some(next) = self.redo_stack.pop() {
            let cur = self.exchange_page(next);
            Self::push_bounded(&mut self.undo_stack, cur);
        }
    }
}

impl<F> Default for Note<F> {
    /// An unnamed blank note with no history.
    fn default() -> (n: Note<F>)
        ensures
            n.name@.len() == 0,
            n.is_fresh(),
    {
        proof {
            reveal_strlit("");
        }
        Note::new("")
    }
}

impl<F: Copy> Note<F> {
    /// A copy of the note's current content.
    fn copy_page(&self) -> (s: Snapshot<F>)
        ensures
            s@ == self.page()@,
    {
        Snapshot::copy_of_parts(
            &self.bg_color,
            &self.rule_gap,
            &self.strokes,
            &self.shapes,
            &self.images,
            &self.tables,
            &self.texts,
            &self.sprays,
        )
    }

    /// Records the current content so that a following edit can be undone;
    /// whatever had been undone can no longer be redone.
    pub fn push_undo(&mut self)
        requires
            old(self).can_record(),
        ensures
            Self::recorded(*old(self), *final(self)),
            old(self).wf() ==> final(self).wf(),
    {
        self.revision = self.revision + 1;
        let snap = self.copy_page();
        Self::push_bounded(&mut self.undo_stack, snap);
        self.redo_stack.clear();
    }
    /// Saves the content for undo, then keeps what a finished drag drew: the stroke and
    /// the spray burst when they hold points, and the shape.
    pub fn commit_drawing(
        &mut self,
        stroke: Option<Stroke<F>>,
        spray: Option<Spray<F>>,
        shape: Option<Shape<F>>,
    )
        requires
            old(self).can_record(),
        ensures
            Self::drawing_committed(*old(self), *final(self), stroke, spray, shape),
            match shape {
                Some(sh) => final(self).shapes@ == old(self).shapes@.push(sh),
                None => final(self).shapes@ == old(self).shapes@,
            },
            match stroke {
                Some(st) => final(self).strokes@ == if st.points@.len() > 0 {
                    old(self).strokes@.push(st)
                } else {
                    old(self).strokes@
                },
                None => final(self).strokes@ == old(self).strokes@,
            },
            match spray {
                Some(sp) => final(self).sprays@ == if sp.points@.len() > 0 {
                    old(self).sprays@.push(sp)
                } else {
                    old(self).sprays@
                },
                None => final(self).sprays@ == old(self).sprays@,
            },
            final(self).undo_stack@.last()@ == old(self).page()@,
            old(self).wf() ==> final(self).wf(),
    {
        self.push_undo();
        if let Some(s) = stroke {
            if s.points.len() > 0 {
                self.strokes.push(s);
            }
        }
        if let Some(sp) = spray {
            if sp.points.len() > 0 {
                self.sprays.push(sp);
            }
        }
        if let Some(sh) = shape {
            self.shapes.push(sh);
        }
        assert(self.strokes@ =~= old(self).strokes@ + drawn_stroke(stroke));
        assert(self.sprays@ =~= old(self).sprays@ + drawn_spray(spray));
        assert(self.shapes@ =~= old(self).shapes@ + present(shape));
    }

    /// Saves the content for undo, then gives the note the background `color`.
    pub fn fill_background(&mut self, color: Color<F>)
        requires
            old(self).can_record(),
        ensures
            Self::saved_for_undo(*old(self), *final(self)),
            final(self).bg_color == Some(color),
            final(self).rule_gap == old(self).rule_gap,
            final(self).strokes == old(self).strokes,
            final(self).shapes == old(self).shapes,
            final(self).images == old(self).images,
            final(self).tables == old(self).tables,
            final(self).texts == old(self).texts,
            final(self).sprays == old(self).sprays,
            old(self).wf() ==> final(self).wf(),
    {
        self.push_undo();
        self.bg_color = Some(color);
    }

    /// Inserts a text box that holds some text, after saving the content for undo.
    /// A text box with empty text is not inserted and the note is left as it was.
    pub fn add_text(&mut self, text: CanvasText<F>) -> (added: bool)
        requires
            text.text@.len() > 0 ==> old(self).can_record(),
        ensures
            added == (text.text@.len() > 0),
            added ==> {
                &&& Self::saved_for_undo(*old(self), *final(self))
                &&& final(self).texts@ == old(self).texts@.push(text)
                &&& final(self).bg_color == old(self).bg_color
                &&& final(self).rule_gap == old(self).rule_gap
                &&& final(self).strokes == old(self).strokes
                &&& final(self).shapes == old(self).shapes
                &&& final(self).images == old(self).images
                &&& final(self).tables == old(self).tables
                &&& final(self).sprays == old(self).sprays
            },
            !added ==> *final(self) == *old(self),
            old(self).wf() ==> final(self).wf(),
    {
        if text.text.as_str().is_empty() {
            return false;
        }
        self.push_undo();
        self.texts.push(text);
        true
    }

    /// One step of an eraser drag: removes the strokes and shapes at the given
    /// positions (those the eraser touched), keeping the others in order. The history
    /// is left alone: the drag saved the content for undo when it began.
    pub fn erase(&mut self, strokes: &HashSet<usize>, shapes: &HashSet<usize>)
        ensures
            Self::history_kept(*old(self), *final(self)),
            final(self).strokes@ == without_selected(old(self).strokes@, strokes@),
            final(self).shapes@ == without_selected(old(self).shapes@, shapes@),
            final(self).bg_color == old(self).bg_color,
            final(self).rule_gap == old(self).rule_gap,
            final(self).images == old(self).images,
            final(self).tables == old(self).tables,
            final(self).texts == old(self).texts,
            final(self).sprays == old(self).sprays,
            old(self).wf() ==> final(self).wf(),
    {
        remove_selected(&mut self.strokes, strokes);
        remove_selected(&mut self.shapes, shapes);
    }

    /// Saves the content for undo, then removes the selected strokes, shapes, images,
    /// tables and texts; the other items keep their order.
    pub fn delete_selected(&mut self, sel: &Selection)
        requires
            old(self).can_record(),
            old(self).fits(*sel),
        ensures
            Self::selection_deleted(*old(self), *final(self), *sel),
            final(self).strokes@.len() == old(self).strokes@.len() - sel.strokes@.len(),
            final(self).shapes@.len() == old(self).shapes@.len() - sel.shapes@.len(),
            final(self).images@.len() == old(self).images@.len() - sel.images@.len(),
            final(self).tables@.len() == old(self).tables@.len() - sel.tables@.len(),
            final(self).texts@.len() == old(self).texts@.len() - sel.texts@.len(),
            old(self).wf() ==> final(self).wf(),
    {
        proof {
            assert(old(self).strokes@.len() == old(self).strokes.len());
            lemma_selection_split(old(self).strokes@, sel.strokes@);
            assert(old(self).shapes@.len() == old(self).shapes.len());
            lemma_selection_split(old(self).shapes@, sel.shapes@);
            assert(old(self).images@.len() == old(self).images.len());
            lemma_selection_split(old(self).images@, sel.images@);
            assert(old(self).tables@.len() == old(self).tables.len());
            lemma_selection_split(old(self).tables@, sel.tables@);
            assert(old(self).texts@.len() == old(self).texts.len());
            lemma_selection_split(old(self).texts@, sel.texts@);
        }
        self.push_undo();
        remove_selected(&mut self.strokes, &sel.strokes);
        remove_selected(&mut self.shapes, &sel.shapes);
        remove_selected(&mut self.images, &sel.images);
        remove_selected(&mut self.tables, &sel.tables);
        remove_selected(&mut self.texts, &sel.texts);
    }

    /// Saves the content for undo, then moves the selected strokes, shapes, images,
    /// tables and texts out of the note into a fresh unnamed note, each kind from the
    /// highest position down; the items left keep their order.
    pub fn cut_selected(&mut self, sel: &Selection) -> (clip: Note<F>)
        requires
            old(self).can_record(),
            old(self).fits(*sel),
        ensures
            Self::selection_deleted(*old(self), *final(self), *sel),
            Self::is_cut_from(clip, *old(self), *sel),
            clip.strokes@.len() == sel.strokes@.len(),
            final(self).strokes@.len() == old(self).strokes@.len() - sel.strokes@.len(),
            clip.shapes@.len() == sel.shapes@.len(),
            final(self).shapes@.len() == old(self).shapes@.len() - sel.shapes@.len(),
            clip.images@.len() == sel.images@.len(),
            final(self).images@.len() == old(self).images@.len() - sel.images@.len(),
            clip.tables@.len() == sel.tables@.len(),
            final(self).tables@.len() == old(self).tables@.len() - sel.tables@.len(),
            clip.texts@.len() == sel.texts@.len(),
            final(self).texts@.len() == old(self).texts@.len() - sel.texts@.len(),

            old(self).wf() ==> final(self).wf(),
    {
        proof {
            assert(old(self).strokes@.len() == old(self).strokes.len());
            lemma_selection_split(old(self).strokes@, sel.strokes@);
            assert(old(self).shapes@.len() == old(self).shapes.len());
            lemma_selection_split(old(self).shapes@, sel.shapes@);
            assert(old(self).images@.len() == old(self).images.len());
            lemma_selection_split(old(self).images@, sel.images@);
            assert(old(self).tables@.len() == old(self).tables.len());
            lemma_selection_split(old(self).tables@, sel.tables@);
            assert(old(self).texts@.len() == old(self).texts.len());
            lemma_selection_split(old(self).texts@, sel.texts@);
        }
        self.push_undo();
        let mut clip: Note<F> = Note::default();
        clip.strokes = take_selected(&mut self.strokes, &sel.strokes);
        clip.shapes = take_selected(&mut self.shapes, &sel.shapes);
        clip.images = take_selected(&mut self.images, &sel.images);
        clip.tables = take_selected(&mut self.tables, &sel.tables);
        clip.texts = take_selected(&mut self.texts, &sel.texts);
        clip
    }

    /// Adds the strokes, shapes, images, tables and texts of `clip` after the note's own,
    /// in their order, after saving the content for undo. When `clip` holds none of them
    /// the note is left as it was.
    pub fn paste_items(&mut self, clip: Note<F>) -> (pasted: bool)
        requires
            clip.has_pastable() ==> old(self).can_record(),
        ensures
            pasted == clip.has_pastable(),
            pasted == (clip.strokes@.len() + clip.shapes@.len() + clip.images@.len()
                + clip.tables@.len() + clip.texts@.len() > 0),
            pasted ==> Self::items_pasted(*old(self), *final(self), clip),
            pasted ==> final(self).texts@ == old(self).texts@ + clip.texts@,
            pasted ==> final(self).undo_stack@.last()@ == old(self).page()@,
            !pasted ==> *final(self) == *old(self),
            old(self).wf() ==> final(self).wf(),
    {
        if !clip.is_pastable() {
            return false;
        }
        self.push_undo();
        let Note { mut strokes, mut shapes, mut images, mut tables, mut texts, .. } = clip;
        self.strokes.append(&mut strokes);
        self.shapes.append(&mut shapes);
        self.images.append(&mut images);
        self.tables.append(&mut tables);
        self.texts.append(&mut texts);
        true
    }
}

impl<F: Copy> Snapshot<F> {
    /// A snapshot holding copies of the given content.
    fn copy_of_parts(
        bg_color: &Option<Color<F>>,
        rule_gap: &Option<F>,
        strokes: &Vec<Stroke<F>>,
        shapes: &Vec<Shape<F>>,
        images: &Vec<CanvasImage<F>>,
        tables: &Vec<CanvasTable<F>>,
        texts: &Vec<CanvasText<F>>,
        sprays: &Vec<Spray<F>>,
    ) -> (s: Snapshot<F>)
        ensures
            s@ == (Snapshot {
                bg_color: *bg_color,
                rule_gap: *rule_gap,
                strokes: *strokes,
                shapes: *shapes,
                images: *images,
                tables: *tables,
                texts: *texts,
                sprays: *sprays,
            })@,
    {
        let s = Snapshot {
            bg_color: *bg_color,
            rule_gap: *rule_gap,
            strokes: strokes.clone(),
            shapes: shapes.clone(),
            images: images.clone(),
            tables: tables.clone(),
            texts: texts.clone(),
            sprays: sprays.clone(),
        };
        assert(s@.strokes =~= strokes@.map_values(|x: Stroke<F>| x@));
        assert(s@.shapes =~= shapes@);
        assert(s@.images =~= images@.map_values(|x: CanvasImage<F>| x@));
        assert(s@.tables =~= tables@.map_values(|x: CanvasTable<F>| x@));
        assert(s@.texts =~= texts@.map_values(|x: CanvasText<F>| x@));
        assert(s@.sprays =~= sprays@.map_values(|x: Spray<F>| x@));
        s
    }
}

impl<F: Copy> Clone for Snapshot<F> {
    fn clone(&self) -> (s: Self)
        ensures
            s@ == self@,
    {
        Snapshot::copy_of_parts(
            &self.bg_color,
            &self.rule_gap,
            &self.strokes,
            &self.shapes,
            &self.images,
            &self.tables,
            &self.texts,
            &self.sprays,
        )
    }
}

/// What a history stack holds: the content of each snapshot, oldest first.
pub open spec fn stack_view<F>(stack: Seq<Snapshot<F>>) -> Seq<PageView<F>> {
    stack.map_values(|s: Snapshot<F>| s@)
}

impl<F> Note<F> {
    /// `self` is a copy of `other`: same name, content, history and revision count.
    pub open spec fn copy_of(self, other: Note<F>) -> bool {
        &&& self.name@ == other.name@
        &&& self.page()@ == other.page()@
        &&& stack_view(self.undo_stack@) == stack_view(other.undo_stack@)
        &&& stack_view(self.redo_stack@) == stack_view(other.redo_stack@)
        &&& self.revision == other.revision
    }
}

/// A copy of a history stack.
fn copy_stack<F: Copy>(stack: &Vec<Snapshot<F>>) -> (out: Vec<Snapshot<F>>)
    ensures
        stack_view(out@) == stack_view(stack@),
{
    let out = stack.clone();
    assert(stack_view(out@) =~= stack_view(stack@));
    out
}

impl<F: Copy> Clone for Note<F> {
    fn clone(&self) -> (n: Self)
        ensures
            n.copy_of(*self),
    {
        let page = self.copy_page();
        let Snapshot { bg_color, rule_gap, strokes, shapes, images, tables, texts, sprays } = page;
        Note {
            name: self.name.clone(),
            bg_color,
            rule_gap,
            strokes,
            shapes,
            images,
            tables,
            texts,
            sprays,
            undo_stack: copy_stack(&self.undo_stack),
            redo_stack: copy_stack(&self.redo_stack),
            revision: self.revision,
        }
    }
}

/// Undo right after an edit, which first saves the content for undo, gives back
/// the content from before the edit, and leaves the edited content to redo;
/// the undo stack is as before the edit unless saving had to drop its oldest entry.
pub proof fn lemma_undo_reverts_edit<F>(n0: Note<F>, n1: Note<F>, n2: Note<F>)
    requires
        Note::saved_for_undo(n0, n1),
        Note::undone(n1, n2),
    ensures
        n2.page()@ == n0.page()@,
        n2.redo_stack@ == seq![n1.page()],
        n0.undo_stack@.len() < HISTORY_LIMIT ==> n2.undo_stack@ == n0.undo_stack@,
        n2.name == n0.name,
{
    assert(n1.undo_stack@.len() > 0);
    if n0.undo_stack@.len() < HISTORY_LIMIT {
        assert(n2.undo_stack@ =~= n0.undo_stack@);
    }
    assert(n2.redo_stack@ =~= seq![n1.page()]);
}

/// Undo after an eraser drag, which saved the content for undo when it began and
/// then only removed items, gives back the content from before the drag.
pub proof fn lemma_undo_reverts_erasing<F>(n0: Note<F>, n1: Note<F>, n2: Note<F>, n3: Note<F>)
    requires
        Note::saved_for_undo(n0, n1),
        Note::history_kept(n1, n2),
        Note::undone(n2, n3),
    ensures
        n3.page()@ == n0.page()@,
        n0.undo_stack@.len() < HISTORY_LIMIT ==> n3.undo_stack@ == n0.undo_stack@,
        n3.name == n0.name,
{
    if n0.undo_stack@.len() < HISTORY_LIMIT {
        assert(n3.undo_stack@ =~= n0.undo_stack@);
    }
}

/// Redo right after an undo that stepped back gives back exactly the content,
/// and the undo stack, from before the undo; the redo stack too, unless it was full.
pub proof fn lemma_redo_after_undo<F>(n0: Note<F>, n1: Note<F>, n2: Note<F>)
    requires
        n0.wf(),
        n0.undo_stack@.len() > 0,
        Note::undone(n0, n1),
        Note::redone(n1, n2),
    ensures
        n2.page() == n0.page(),
        n2.undo_stack@ == n0.undo_stack@,
        n0.redo_stack@.len() < HISTORY_LIMIT ==> n2.redo_stack@ == n0.redo_stack@,
        n2.name == n0.name,
{
    assert(n2.undo_stack@ =~= n0.undo_stack@);
    if n0.redo_stack@.len() < HISTORY_LIMIT {
        assert(n2.redo_stack@ =~= n0.redo_stack@);
    }
}

/// Undo right after a redo that stepped forward gives back exactly the content,
/// and the redo stack, from before the redo; the undo stack too, unless it was full.
pub proof fn lemma_undo_after_redo<F>(n0: Note<F>, n1: Note<F>, n2: Note<F>)
    requires
        n0.wf(),
        n0.redo_stack@.len() > 0,
        Note::redone(n0, n1),
        Note::undone(n1, n2),
    ensures
        n2.page() == n0.page(),
        n2.redo_stack@ == n0.redo_stack@,
        n0.undo_stack@.len() < HISTORY_LIMIT ==> n2.undo_stack@ == n0.undo_stack@,
        n2.name == n0.name,
{
    assert(n2.redo_stack@ =~= n0.redo_stack@);
    if n0.undo_stack@.len() < HISTORY_LIMIT {
        assert(n2.undo_stack@ =~= n0.undo_stack@);
    }
}

/// Recording, undo and redo keep each history stack within the limit.
pub proof fn lemma_history_stays_bounded<F>(n0: Note<F>, n1: Note<F>)
    requires
        n0.wf(),
        Note::saved_for_undo(n0, n1) || Note::undone(n0, n1) || Note::redone(n0, n1),
    ensures
        n1.wf(),
{
}

/// Cutting the selection and pasting the clipboard back, as it is, into the same note
/// keeps every stroke, shape, image, table and text exactly once; the pasted items
/// come after the others.
pub proof fn lemma_cut_then_paste_keeps_items<F>(
    n0: Note<F>,
    sel: Selection,
    n1: Note<F>,
    clip: Note<F>,
    n2: Note<F>,
)
    requires
        Note::selection_deleted(n0, n1, sel),
        Note::is_cut_from(clip, n0, sel),
        Note::items_pasted(n1, n2, clip),
    ensures
        n2.strokes@.to_multiset() == n0.strokes@.to_multiset(),
        n2.shapes@.to_multiset() == n0.shapes@.to_multiset(),
        n2.images@.to_multiset() == n0.images@.to_multiset(),
        n2.tables@.to_multiset() == n0.tables@.to_multiset(),
        n2.texts@.to_multiset() == n0.texts@.to_multiset(),
        n2.sprays == n0.sprays,
        n2.bg_color == n0.bg_color,
{
    lemma_cut_and_paste_keeps_items(n0.strokes@, sel.strokes@);
    lemma_cut_and_paste_keeps_items(n0.shapes@, sel.shapes@);
    lemma_cut_and_paste_keeps_items(n0.images@, sel.images@);
    lemma_cut_and_paste_keeps_items(n0.tables@, sel.tables@);
    lemma_cut_and_paste_keeps_items(n0.texts@, sel.texts@);
}

/// A note is pastable exactly when it holds some item to paste: a stroke, a shape, an
/// image, a table or a text box (sprays are never pasted).
pub proof fn lemma_pastable_iff_some_item<F>(clip: Note<F>)
    ensures
        clip.has_pastable() <==> (clip.strokes@.len() + clip.shapes@.len() + clip.images@.len()
            + clip.tables@.len() + clip.texts@.len() > 0),
        clip.texts@.len() > 0 ==> clip.has_pastable(),
        clip.strokes@.len() > 0 ==> clip.has_pastable(),
        clip.shapes@.len() > 0 ==> clip.has_pastable(),
        clip.images@.len() > 0 ==> clip.has_pastable(),
        clip.tables@.len() > 0 ==> clip.has_pastable(),
{
}

/// Pasting appends every item of the clipboard, of each kind, after the note's own,
/// keeps the sprays and background, and saves the content from before for undo.
pub proof fn lemma_paste_appends_every_item<F>(old: Note<F>, new: Note<F>, clip: Note<F>)
    requires
        Note::items_pasted(old, new, clip),
    ensures
        new.strokes@.len() == old.strokes@.len() + clip.strokes@.len(),
        forall|i: int| 0 <= i < clip.texts@.len() ==> new.texts@[old.texts@.len() + i] == clip.texts@[i],
        forall|i: int| 0 <= i < old.texts@.len() ==> new.texts@[i] == old.texts@[i],
        new.texts@.len() == old.texts@.len() + clip.texts@.len(),
        forall|i: int| 0 <= i < clip.strokes@.len() ==> new.strokes@[old.strokes@.len() + i] == clip.strokes@[i],
        forall|i: int| 0 <= i < clip.shapes@.len() ==> new.shapes@[old.shapes@.len() + i] == clip.shapes@[i],
        forall|i: int| 0 <= i < clip.images@.len() ==> new.images@[old.images@.len() + i] == clip.images@[i],
        forall|i: int| 0 <= i < clip.tables@.len() ==> new.tables@[old.tables@.len() + i] == clip.tables@[i],
        new.undo_stack@.last()@ == old.page()@,
{
}

/// A finished drag keeps the shape it drew, whatever its kind, after the note's shapes;
/// it keeps the stroke and the spray burst only when they hold points.
pub proof fn lemma_commit_keeps_what_was_drawn<F>(
    old: Note<F>,
    new: Note<F>,
    stroke: Option<Stroke<F>>,
    spray: Option<Spray<F>>,
    shape: Option<Shape<F>>,
)
    requires
        Note::drawing_committed(old, new, stroke, spray, shape),
    ensures
        shape matches Some(sh) ==> new.shapes@ == old.shapes@.push(sh),
        shape is None ==> new.shapes@ == old.shapes@,
        stroke matches Some(st) ==> (st.points@.len() > 0 <==> new.strokes@ == old.strokes@.push(st)),
        stroke matches Some(st) ==> (st.points@.len() == 0 ==> new.strokes@ == old.strokes@),
        stroke is None ==> new.strokes@ == old.strokes@,
        spray matches Some(sp) ==> (sp.points@.len() > 0 ==> new.sprays@ == old.sprays@.push(sp)),
        spray matches Some(sp) ==> (sp.points@.len() == 0 ==> new.sprays@ == old.sprays@),
        new.undo_stack@.last()@ == old.page()@,
{
    match shape {
        Some(sh) => assert(new.shapes@ =~= old.shapes@.push(sh)),
        None => assert(new.shapes@ =~= old.shapes@),
    }
    match stroke {
        Some(st) => {
            if st.points@.len() > 0 {
                assert(new.strokes@ =~= old.strokes@.push(st));
            } else {
                assert(new.strokes@ =~= old.strokes@);
                assert(new.strokes@.len() != old.strokes@.push(st).len());
            }
        },
        None => assert(new.strokes@ =~= old.strokes@),
    }
    match spray {
        Some(sp) => {
            if sp.points@.len() > 0 {
                assert(new.sprays@ =~= old.sprays@.push(sp));
            } else {
                assert(new.sprays@ =~= old.sprays@);
            }
        },
        None => {},
    }
}

/// Deleting a selection that fits removes exactly the selected items of each kind:
/// each list loses as many items as its selection holds, and every unselected item
/// stays, in its old order (at its old position less the selected positions below it).
/// Sprays, background and rules stay; the content from before is saved for undo.
pub proof fn lemma_delete_removes_exactly_selected<F>(old: Note<F>, new: Note<F>, sel: Selection)
    requires
        Note::selection_deleted(old, new, sel),
        old.fits(sel),
    ensures
        new.strokes@.len() == old.strokes@.len() - sel.strokes@.len(),
        new.shapes@.len() == old.shapes@.len() - sel.shapes@.len(),
        new.images@.len() == old.images@.len() - sel.images@.len(),
        new.tables@.len() == old.tables@.len() - sel.tables@.len(),
        new.texts@.len() == old.texts@.len() - sel.texts@.len(),
        forall|j: int|
            0 <= j < old.strokes@.len() && !sel.strokes@.contains(j as usize) ==> #[trigger] new.strokes@[j
                - count_selected(sel.strokes@, j)] == old.strokes@[j],
        forall|j: int|
            0 <= j < old.shapes@.len() && !sel.shapes@.contains(j as usize) ==> #[trigger] new.shapes@[j
                - count_selected(sel.shapes@, j)] == old.shapes@[j],
        forall|j: int|
            0 <= j < old.images@.len() && !sel.images@.contains(j as usize) ==> #[trigger] new.images@[j
                - count_selected(sel.images@, j)] == old.images@[j],
        forall|j: int|
            0 <= j < old.tables@.len() && !sel.tables@.contains(j as usize) ==> #[trigger] new.tables@[j
                - count_selected(sel.tables@, j)] == old.tables@[j],
        forall|j: int|
            0 <= j < old.texts@.len() && !sel.texts@.contains(j as usize) ==> #[trigger] new.texts@[j
                - count_selected(sel.texts@, j)] == old.texts@[j],
        new.sprays == old.sprays,
        new.bg_color == old.bg_color,
        new.rule_gap == old.rule_gap,
        new.undo_stack@.last()@ == old.page()@,
{
    assert(old.strokes@.len() == old.strokes.len());
    lemma_selection_split(old.strokes@, sel.strokes@);
    assert(old.shapes@.len() == old.shapes.len());
    lemma_selection_split(old.shapes@, sel.shapes@);
    assert(old.images@.len() == old.images.len());
    lemma_selection_split(old.images@, sel.images@);
    assert(old.tables@.len() == old.tables.len());
    lemma_selection_split(old.tables@, sel.tables@);
    assert(old.texts@.len() == old.texts.len());
    lemma_selection_split(old.texts@, sel.texts@);
}

/// Cutting a selection that fits puts exactly the selected items of each kind into the
/// clipboard: as many as the selection holds, each selected item once, from the highest
/// position down; the clipboard holds nothing else.
pub proof fn lemma_cut_takes_exactly_selected<F>(clip: Note<F>, old: Note<F>, sel: Selection)
    requires
        Note::is_cut_from(clip, old, sel),
        old.fits(sel),
    ensures
        clip.strokes@.len() == sel.strokes@.len(),
        forall|j: int|
            0 <= j < old.strokes@.len() && sel.strokes@.contains(j as usize) ==> #[trigger] clip.strokes@[sel.strokes@.len()
                - 1 - count_selected(sel.strokes@, j)] == old.strokes@[j],
        clip.shapes@.len() == sel.shapes@.len(),
        forall|j: int|
            0 <= j < old.shapes@.len() && sel.shapes@.contains(j as usize) ==> #[trigger] clip.shapes@[sel.shapes@.len()
                - 1 - count_selected(sel.shapes@, j)] == old.shapes@[j],
        clip.images@.len() == sel.images@.len(),
        forall|j: int|
            0 <= j < old.images@.len() && sel.images@.contains(j as usize) ==> #[trigger] clip.images@[sel.images@.len()
                - 1 - count_selected(sel.images@, j)] == old.images@[j],
        clip.tables@.len() == sel.tables@.len(),
        forall|j: int|
            0 <= j < old.tables@.len() && sel.tables@.contains(j as usize) ==> #[trigger] clip.tables@[sel.tables@.len()
                - 1 - count_selected(sel.tables@, j)] == old.tables@[j],
        clip.texts@.len() == sel.texts@.len(),
        forall|j: int|
            0 <= j < old.texts@.len() && sel.texts@.contains(j as usize) ==> #[trigger] clip.texts@[sel.texts@.len()
                - 1 - count_selected(sel.texts@, j)] == old.texts@[j],
        clip.sprays@.len() == 0,
        clip.bg_color.is_none(),
{
    assert(old.strokes@.len() == old.strokes.len());
    lemma_selection_split(old.strokes@, sel.strokes@);
    assert(old.shapes@.len() == old.shapes.len());
    lemma_selection_split(old.shapes@, sel.shapes@);
    assert(old.images@.len() == old.images.len());
    lemma_selection_split(old.images@, sel.images@);
    assert(old.tables@.len() == old.tables.len());
    lemma_selection_split(old.tables@, sel.tables@);
    assert(old.texts@.len() == old.texts.len());
    lemma_selection_split(old.texts@, sel.texts@);
}

/// Pushing on a history stack that is within the limit puts the new entry on top,
/// keeps the stack within the limit, and keeps the most recent earlier entries in
/// order: all of them, or all but the oldest when the stack was full.
pub proof fn lemma_bounded_push<T>(s: Seq<T>, x: T)
    requires
        s.len() <= HISTORY_LIMIT,
    ensures
        bounded_push(s, x).len() == if s.len() < HISTORY_LIMIT { s.len() + 1 } else { s.len() + 0 },
        bounded_push(s, x).last() == x,
        forall|i: int|
            0 <= i < bounded_push(s, x).len() - 1 ==> #[trigger] bounded_push(s, x)[i] == s[s.len() + 1
                - bounded_push(s, x).len() + i],
{
}

} // verus!
