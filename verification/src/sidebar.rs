use vstd::prelude::*;

use crate::note::Note;
use crate::session::{AppState, Session};

verus! {

/// One line of the sidebar: a session, or one of its notes, with its label and whether
/// it is shown as the current one.
pub struct SidebarRow {
    pub session: usize,
    pub note: Option<usize>,
    pub label: String,
    pub selected: bool,
}

impl View for SidebarRow {
    type V = (usize, Option<usize>, Seq<char>, bool);

    open spec fn view(&self) -> Self::V {
        (self.session, self.note, self.label@, self.selected)
    }
}

/// The rows of the first `k` notes of session `s` at position `si`; a note row is
/// selected when its session is the current one and it is that session's current note.
pub open spec fn note_rows<F>(s: Session<F>, si: usize, is_current: bool, k: int) -> Seq<
    (usize, Option<usize>, Seq<char>, bool),
>
    decreases k,
{
    if k <= 0 {
        Seq::empty()
    } else {
        note_rows(s, si, is_current, k - 1).push(
            (
                si,
                Some((k - 1) as usize),
                s.notes@[k - 1].name@,
                is_current && s.current_note_idx == k - 1,
            ),
        )
    }
}

/// The rows of the first `k` sessions: each session's row, then the rows of its notes.
pub open spec fn session_rows<F>(sessions: Seq<Session<F>>, current: usize, k: int) -> Seq<
    (usize, Option<usize>, Seq<char>, bool),
>
    decreases k,
{
    if k <= 0 {
        Seq::empty()
    } else {
        let s = sessions[k - 1];
        let si = (k - 1) as usize;
        session_rows(sessions, current, k - 1).push((si, None, s.name@, current == si))
            + note_rows(s, si, current == si, s.notes@.len() as int)
    }
}

impl<F> AppState<F> {
    /// The sidebar listing: every session in order, each followed by its notes.
    pub open spec fn sidebar(self) -> Seq<(usize, Option<usize>, Seq<char>, bool)> {
        session_rows(self.sessions@, self.current_session_idx, self.sessions@.len() as int)
    }

    /// The rows of the sidebar: every session in order, each followed by its notes;
    /// the current session and, within it, its current note are marked selected.
    pub fn sidebar_rows(&self) -> (rows: Vec<SidebarRow>)
        ensures
            rows@.len() == self.sidebar().len(),
            rows@.len() == rows_before(self.sessions@, self.sessions@.len() as int),
            forall|i: int| 0 <= i < rows@.len() ==> (#[trigger] rows@[i])@ == self.sidebar()[i],
    {
        let mut rows: Vec<SidebarRow> = Vec::new();
        let n: usize = self.sessions.len();
        let cur: usize = self.current_session_idx;
        let mut si: usize = 0;
        while si < n
            invariant
                n == self.sessions@.len(),
                cur == self.current_session_idx,
                si <= n,
                rows@.len() == session_rows(self.sessions@, cur, si as int).len(),
                forall|i: int|
                    0 <= i < rows@.len() ==> (#[trigger] rows@[i])@ == session_rows(
                        self.sessions@,
                        cur,
                        si as int,
                    )[i],
            decreases n - si,
        {
            let s: &Session<F> = &self.sessions[si];
            let is_cur = cur == si;
            let ghost before = session_rows(self.sessions@, cur, si as int);
            rows.push(
                SidebarRow { session: si, note: None, label: s.name.clone(), selected: is_cur },
            );
            let ghost head = before.push((si, None, s.name@, is_cur));
            assert(forall|i: int| 0 <= i < rows@.len() ==> (#[trigger] rows@[i])@ == head[i]);
            let m: usize = s.notes.len();
            let mut ni: usize = 0;
            while ni < m
                invariant
                    m == s.notes@.len(),
                    ni <= m,
                    rows@.len() == head.len() + note_rows(*s, si, is_cur, ni as int).len(),
                    forall|i: int|
                        0 <= i < rows@.len() ==> (#[trigger] rows@[i])@ == (head + note_rows(
                            *s,
                            si,
                            is_cur,
                            ni as int,
                        ))[i],
                decreases m - ni,
            {
                let note: &Note<F> = &s.notes[ni];
                let sel = is_cur && s.current_note_idx == ni;
                let ghost prev = head + note_rows(*s, si, is_cur, ni as int);
                rows.push(
                    SidebarRow { session: si, note: Some(ni), label: note.name.clone(), selected: sel },
                );
                assert(head + note_rows(*s, si, is_cur, ni + 1) =~= prev.push(
                    (si, Some(ni), note.name@, sel),
                ));
                ni = ni + 1;
            }
            assert(session_rows(self.sessions@, cur, si + 1) =~= head + note_rows(
                *s,
                si,
                is_cur,
                m as int,
            ));
            si = si + 1;
        }
        proof {
            lemma_sidebar_lists_everything(*self);
        }
        rows
    }
}

/// What a sidebar row shows: a session of `sessions` by its name, selected exactly when
/// it is the current session; or a note of one by its name, selected exactly when its
/// session is the current one and it is that session's current note.
pub open spec fn describes<F>(
    sessions: Seq<Session<F>>,
    current: usize,
    row: (usize, Option<usize>, Seq<char>, bool),
) -> bool {
    &&& row.0 < sessions.len()
    &&& match row.1 {
        None => row.2 == sessions[row.0 as int].name@ && row.3 == (row.0 == current),
        Some(j) => {
            &&& j < sessions[row.0 as int].notes@.len()
            &&& row.2 == sessions[row.0 as int].notes@[j as int].name@
            &&& row.3 == (row.0 == current && sessions[row.0 as int].current_note_idx == j)
        },
    }
}

proof fn lemma_note_rows<F>(s: Session<F>, si: usize, is_current: bool, k: int)
    requires
        0 <= k <= s.notes@.len(),
        s.notes@.len() <= usize::MAX,
    ensures
        note_rows(s, si, is_current, k).len() == k,
        forall|i: int|
            0 <= i < k ==> {
                let r = #[trigger] note_rows(s, si, is_current, k)[i];
                &&& r.0 == si
                &&& r.1 == Some(i as usize)
                &&& r.2 == s.notes@[i].name@
                &&& r.3 == (is_current && s.current_note_idx == i)
            },
    decreases k,
{
    if k > 0 {
        lemma_note_rows(s, si, is_current, k - 1);
    }
}

proof fn lemma_session_rows<F>(sessions: Seq<Session<F>>, current: usize, k: int)
    requires
        0 <= k <= sessions.len(),
        sessions.len() <= usize::MAX,
        forall|i: int| 0 <= i < sessions.len() ==> (#[trigger] sessions[i]).notes@.len() <= usize::MAX,
    ensures
        forall|i: int|
            0 <= i < session_rows(sessions, current, k).len() ==> describes(
                sessions,
                current,
                #[trigger] session_rows(sessions, current, k)[i],
            ),
    decreases k,
{
    if k > 0 {
        lemma_session_rows(sessions, current, k - 1);
        let s = sessions[k - 1];
        let si = (k - 1) as usize;
        let before = session_rows(sessions, current, k - 1);
        let head = before.push((si, None, s.name@, current == si));
        let notes = note_rows(s, si, current == si, s.notes@.len() as int);
        lemma_note_rows(s, si, current == si, s.notes@.len() as int);
        assert forall|i: int|
            0 <= i < session_rows(sessions, current, k).len() implies describes(
            sessions,
            current,
            #[trigger] session_rows(sessions, current, k)[i],
        ) by {
            assert(session_rows(sessions, current, k) == head + notes);
            if i < before.len() {
                assert(session_rows(sessions, current, k)[i] == before[i]);
            } else if i == before.len() {
                assert(session_rows(sessions, current, k)[i] == head[i]);
            } else {
                assert(session_rows(sessions, current, k)[i] == notes[i - head.len()]);
            }
        }
    }
}

/// Every sidebar row names an existing session or note by its name, and a row is
/// shown selected exactly when it is the current session, or the current note of
/// the current session.
pub proof fn lemma_sidebar_marks_current<F>(app: AppState<F>)
    ensures
        forall|i: int|
            0 <= i < app.sidebar().len() ==> describes(
                app.sessions@,
                app.current_session_idx,
                #[trigger] app.sidebar()[i],
            ),
{
    assert forall|i: int| 0 <= i < app.sessions@.len() implies (#[trigger] app.sessions@[i]).notes@.len()
        <= usize::MAX by {
        assert(app.sessions@[i].notes@.len() == app.sessions@[i].notes.len());
    }
    assert(app.sessions@.len() == app.sessions.len());
    lemma_session_rows(app.sessions@, app.current_session_idx, app.sessions@.len() as int);
}

/// How many sidebar rows the first `k` sessions take: one for each session and one for
/// each of its notes.
pub open spec fn rows_before<F>(sessions: Seq<Session<F>>, k: int) -> int
    decreases k,
{
    if k <= 0 {
        0
    } else {
        rows_before(sessions, k - 1) + 1 + sessions[k - 1].notes@.len()
    }
}

proof fn lemma_rows_before_nonneg<F>(sessions: Seq<Session<F>>, k: int)
    ensures
        rows_before(sessions, k) >= 0,
    decreases k,
{
    if k > 0 {
        lemma_rows_before_nonneg(sessions, k - 1);
    }
}

proof fn lemma_rows_before_grows<F>(sessions: Seq<Session<F>>, j: int, k: int)
    requires
        0 <= j <= k,
    ensures
        rows_before(sessions, j) >= 0,
        rows_before(sessions, j) + (if j < k { 1 + sessions[j].notes@.len() } else { 0 }) <= rows_before(sessions, k),
    decreases k - j,
{
    lemma_rows_before_nonneg(sessions, j);
    if j < k {
        if j + 1 < k {
            lemma_rows_before_grows(sessions, j + 1, k);
        }
    }
}

proof fn lemma_session_rows_layout<F>(sessions: Seq<Session<F>>, current: usize, k: int)
    requires
        0 <= k <= sessions.len(),
        sessions.len() <= usize::MAX,
        forall|i: int| 0 <= i < sessions.len() ==> (#[trigger] sessions[i]).notes@.len() <= usize::MAX,
    ensures
        session_rows(sessions, current, k).len() == rows_before(sessions, k),
        forall|si: int|
            0 <= si < k ==> #[trigger] session_rows(sessions, current, k)[rows_before(sessions, si)]
                == (si as usize, None::<usize>, sessions[si].name@, current == si),
        forall|si: int, ni: int|
            0 <= si < k && 0 <= ni < sessions[si].notes@.len() ==> #[trigger] session_rows(
                sessions,
                current,
                k,
            )[rows_before(sessions, si) + 1 + ni] == (
                si as usize,
                Some(ni as usize),
                sessions[si].notes@[ni].name@,
                current == si && sessions[si].current_note_idx == ni,
            ),
    decreases k,
{
    if k > 0 {
        lemma_session_rows_layout(sessions, current, k - 1);
        let s = sessions[k - 1];
        let si0 = (k - 1) as usize;
        let before = session_rows(sessions, current, k - 1);
        let head = before.push((si0, None, s.name@, current == si0));
        let notes = note_rows(s, si0, current == si0, s.notes@.len() as int);
        lemma_note_rows(s, si0, current == si0, s.notes@.len() as int);
        let all = session_rows(sessions, current, k);
        assert(all == head + notes);
        assert forall|si: int| 0 <= si < k implies #[trigger] all[rows_before(sessions, si)]
            == (si as usize, None::<usize>, sessions[si].name@, current == si) by {
            if si < k - 1 {
                lemma_rows_before_grows(sessions, si, k - 1);
                let idx = rows_before(sessions, si);
                assert(idx < before.len());
                assert(head[idx] == before[idx]);
                assert(all[idx] == head[idx]);
            }
        }
        assert forall|si: int, ni: int|
            0 <= si < k && 0 <= ni < sessions[si].notes@.len() implies #[trigger] all[rows_before(
            sessions,
            si,
        ) + 1 + ni] == (
            si as usize,
            Some(ni as usize),
            sessions[si].notes@[ni].name@,
            current == si && sessions[si].current_note_idx == ni,
        ) by {
            if si < k - 1 {
                lemma_rows_before_grows(sessions, si, k - 1);
                let idx = rows_before(sessions, si) + 1 + ni;
                assert(idx < before.len());
                assert(head[idx] == before[idx]);
                assert(all[idx] == head[idx]);
            } else {
                assert(all[rows_before(sessions, si) + 1 + ni] == notes[ni]);
            }
        }
    }
}

/// The sidebar has one row for every session and one for every note of every session,
/// and nothing else: session `si` is listed at row `rows_before(si)`, followed by its
/// notes in order; the current session's row and, below it, the row of its current
/// note are the ones marked selected.
pub proof fn lemma_sidebar_lists_everything<F>(app: AppState<F>)
    ensures
        app.sidebar().len() == rows_before(app.sessions@, app.sessions@.len() as int),
        forall|si: int|
            0 <= si < app.sessions@.len() ==> #[trigger] app.sidebar()[rows_before(app.sessions@, si)]
                == (si as usize, None::<usize>, app.sessions@[si].name@, app.current_session_idx == si),
        forall|si: int, ni: int|
            0 <= si < app.sessions@.len() && 0 <= ni < app.sessions@[si].notes@.len()
                ==> #[trigger] app.sidebar()[rows_before(app.sessions@, si) + 1 + ni] == (
                si as usize,
                Some(ni as usize),
                app.sessions@[si].notes@[ni].name@,
                app.current_session_idx == si && app.sessions@[si].current_note_idx == ni,
            ),
{
    assert forall|i: int| 0 <= i < app.sessions@.len() implies (#[trigger] app.sessions@[i]).notes@.len()
        <= usize::MAX by {
        assert(app.sessions@[i].notes@.len() == app.sessions@[i].notes.len());
    }
    assert(app.sessions@.len() == app.sessions.len());
    lemma_session_rows_layout(app.sessions@, app.current_session_idx, app.sessions@.len() as int);
}

} // verus!
