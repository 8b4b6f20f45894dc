//! Command history: the commands read back from the console output, the
//! configuration list curated from them, and the edits on both lists.
use vstd::prelude::*;
use vstd::slice::slice_subrange;
use vstd::utf8::{decode_utf8, valid_utf8};

use crate::scan::{
    is_printable, lemma_empty_line, lemma_prompted_line, lemma_scan_byte_wf, lemma_scan_chunks, lemma_scan_one, prompt, scan, ScanModel, BACKSPACE, CR,
    FIRST_PRINTABLE, LF, PROMPT_LEN,
};

verus! {

/// The list that navigation and edits act on.
#[derive(Clone, Copy, Debug, PartialEq, Eq, Structural)]
pub enum ActiveWidget {
    Hist,
    Conf,
}

/// The text of each string of a list.
pub open spec fn texts(v: Seq<String>) -> Seq<Seq<char>> {
    v.map_values(|s: String| s@)
}

/// A cursor is on an entry of a non-empty list, and at 0 on an empty one.
pub open spec fn cursor_ok(sel: nat, len: nat) -> bool {
    if len == 0 {
        sel == 0
    } else {
        sel < len
    }
}

/// The cursor one entry further down, if there is one.
pub open spec fn step_down(sel: nat, len: nat) -> nat {
    if sel + 1 < len {
        sel + 1
    } else {
        sel
    }
}

/// The cursor one entry further up, if there is one.
pub open spec fn step_up(sel: nat) -> nat {
    if sel > 0 {
        (sel - 1) as nat
    } else {
        sel
    }
}

/// Entries `i` and `j` of a list trade places.
pub open spec fn swapped<T>(list: Seq<T>, i: int, j: int) -> Seq<T> {
    list.update(i, list[j]).update(j, list[i])
}

/// The entry under the cursor and the one above it trade places, and the
/// cursor follows its entry.
pub open spec fn reorder_up<T>(list: Seq<T>, sel: nat) -> (Seq<T>, nat) {
    if sel > 0 {
        (swapped(list, sel as int, sel - 1), (sel - 1) as nat)
    } else {
        (list, sel)
    }
}

/// The entry under the cursor and the one below it trade places, and the
/// cursor follows its entry.
pub open spec fn reorder_down<T>(list: Seq<T>, sel: nat) -> (Seq<T>, nat) {
    if sel + 1 < list.len() {
        (swapped(list, sel as int, sel + 1 as int), sel + 1)
    } else {
        (list, sel)
    }
}

/// The cursor after the entry under it was removed: at the same place, or
/// on the new last entry.
pub open spec fn clamped(sel: nat, len: nat) -> nat {
    if sel < len {
        sel
    } else if len > 0 {
        (len - 1) as nat
    } else {
        0
    }
}

/// Text of bytes decoded as UTF-8, with each invalid sequence replaced.
pub uninterp spec fn lossy_utf8(b: Seq<u8>) -> Seq<char>;

/// Relies on `String::from_utf8_lossy`: its text depends on the bytes alone,
/// and bytes that are valid UTF-8 are decoded as they stand.
#[verifier::external_body]
fn decode_lossy(b: &[u8]) -> (r: String)
    ensures
        r@ == lossy_utf8(b@),
        valid_utf8(b@) ==> r@ == decode_utf8(b@),
{
    String::from_utf8_lossy(b).into_owned()
}

/// The text of a command, decoded from its bytes: as they stand where they
/// are valid UTF-8, with each invalid sequence replaced otherwise.
pub open spec fn command_text(b: Seq<u8>) -> Seq<char> {
    if valid_utf8(b) {
        decode_utf8(b)
    } else {
        lossy_utf8(b)
    }
}

/// The text of each command, decoded from its bytes.
pub open spec fn decoded(cmds: Seq<Seq<u8>>) -> Seq<Seq<char>> {
    cmds.map_values(|b: Seq<u8>| command_text(b))
}

/// Appending no commands leaves a list as it is.
proof fn lemma_append_none(h: Seq<Seq<char>>)
    ensures
        h + decoded(Seq::empty()) == h,
{
    assert(h + decoded(Seq::empty()) =~= h);
}

/// What a `History` holds, as values.
pub struct HistoryView {
    pub hist: Seq<Seq<char>>,
    pub conf: Seq<Seq<char>>,
    /// Removed entries, the last removed at the end.
    pub deleted: Seq<Seq<char>>,
    pub hist_sel: nat,
    pub conf_sel: nat,
    pub active: ActiveWidget,
    pub info: Option<Seq<char>>,
    pub scan: ScanModel,
}

impl HistoryView {
    pub open spec fn wf(self) -> bool {
        &&& self.scan.wf()
        &&& cursor_ok(self.hist_sel, self.hist.len())
        &&& cursor_ok(self.conf_sel, self.conf.len())
    }

    /// The history as it starts: empty lists, the scanner at a line start.
    pub open spec fn initial() -> HistoryView {
        HistoryView {
            hist: Seq::empty(),
            conf: Seq::empty(),
            deleted: Seq::empty(),
            hist_sel: 0,
            conf_sel: 0,
            active: ActiveWidget::Hist,
            info: None,
            scan: ScanModel::line_start(false),
        }
    }

    pub open spec fn active_list(self) -> Seq<Seq<char>> {
        match self.active {
            ActiveWidget::Hist => self.hist,
            ActiveWidget::Conf => self.conf,
        }
    }

    pub open spec fn active_sel(self) -> nat {
        match self.active {
            ActiveWidget::Hist => self.hist_sel,
            ActiveWidget::Conf => self.conf_sel,
        }
    }

    /// The active list and its cursor replaced.
    pub open spec fn with_active(self, list: Seq<Seq<char>>, sel: nat) -> HistoryView {
        match self.active {
            ActiveWidget::Hist => HistoryView { hist: list, hist_sel: sel, ..self },
            ActiveWidget::Conf => HistoryView { conf: list, conf_sel: sel, ..self },
        }
    }

    pub open spec fn toggled(self) -> HistoryView {
        match self.active {
            ActiveWidget::Hist => HistoryView { active: ActiveWidget::Conf, ..self },
            ActiveWidget::Conf => HistoryView { active: ActiveWidget::Hist, ..self },
        }
    }

    pub open spec fn down(self) -> HistoryView {
        self.with_active(self.active_list(), step_down(self.active_sel(), self.active_list().len()))
    }

    pub open spec fn up(self) -> HistoryView {
        self.with_active(self.active_list(), step_up(self.active_sel()))
    }

    pub open spec fn move_up(self) -> HistoryView {
        let r = reorder_up(self.active_list(), self.active_sel());
        self.with_active(r.0, r.1)
    }

    pub open spec fn move_down(self) -> HistoryView {
        let r = reorder_down(self.active_list(), self.active_sel());
        self.with_active(r.0, r.1)
    }

    /// The entry under the active cursor moves onto the deleted stack.
    pub open spec fn delete(self) -> HistoryView {
        let list = self.active_list();
        let sel = self.active_sel();
        if list.len() > 0 {
            let rest = list.remove(sel as int);
            HistoryView {
                deleted: self.deleted.push(list[sel as int]),
                ..self.with_active(rest, clamped(sel, rest.len()))
            }
        } else {
            self
        }
    }

    /// The last deleted entry goes back, at the end of the history list.
    pub open spec fn undelete(self) -> HistoryView {
        if self.deleted.len() > 0 {
            HistoryView {
                hist: self.hist.push(self.deleted.last()),
                deleted: self.deleted.drop_last(),
                ..self
            }
        } else {
            self
        }
    }

    /// The history entry under its cursor is copied into the configuration
    /// list: at its end from the history list, at its cursor from itself.
    pub open spec fn copy(self) -> HistoryView {
        if self.hist_sel < self.hist.len() {
            let com = self.hist[self.hist_sel as int];
            match self.active {
                ActiveWidget::Hist => HistoryView { conf: self.conf.push(com), ..self },
                ActiveWidget::Conf => HistoryView {
                    conf: self.conf.insert(self.conf_sel as int, com),
                    ..self
                },
            }
        } else {
            self
        }
    }

    /// The output bytes read: the scanner moves on, and each command they
    /// complete is appended to the history list.
    pub open spec fn after_scan(self, bytes: Seq<u8>) -> HistoryView {
        let r = scan(self.scan, bytes);
        HistoryView {
            scan: r.0,
            hist: self.hist + decoded(r.1),
            ..self
        }
    }
}

/// `delete` done `n` times.
pub open spec fn delete_times(v: HistoryView, n: nat) -> HistoryView
    decreases n,
{
    if n == 0 {
        v
    } else {
        delete_times(v, (n - 1) as nat).delete()
    }
}

/// `undelete` done `n` times.
pub open spec fn undelete_times(v: HistoryView, n: nat) -> HistoryView
    decreases n,
{
    if n == 0 {
        v
    } else {
        undelete_times(v, (n - 1) as nat).undelete()
    }
}

/// Moving a cursor, or the entry under it, keeps each cursor on an entry of
/// its list; on a list of one entry, moving the entry changes nothing.
pub proof fn lemma_moves_keep_cursor(v: HistoryView)
    requires
        v.wf(),
    ensures
        v.down().wf(),
        v.up().wf(),
        v.move_up().wf(),
        v.move_down().wf(),
        v.active_list().len() == 1 ==> v.move_up() == v && v.move_down() == v,
{
}

/// A deleted entry comes back, by `undelete`, at the end of the history
/// list, and the deleted stack is as it was before.
pub proof fn lemma_delete_undelete(v: HistoryView)
    requires
        v.wf(),
        v.active_list().len() > 0,
    ensures
        v.delete().undelete().hist == v.delete().hist.push(v.active_list()[v.active_sel() as int]),
        v.delete().undelete().deleted == v.deleted,
{
    assert(v.delete().deleted.drop_last() =~= v.deleted);
}

proof fn lemma_delete_times(v: HistoryView, n: nat)
    requires
        v.wf(),
        n <= v.active_list().len(),
    ensures
        delete_times(v, n).wf(),
        delete_times(v, n).active == v.active,
        delete_times(v, n).active_list().len() == v.active_list().len() - n,
        delete_times(v, n).deleted.len() == v.deleted.len() + n,
        delete_times(v, n).deleted.take(v.deleted.len() as int) == v.deleted,
    decreases n,
{
    if n > 0 {
        lemma_delete_times(v, (n - 1) as nat);
        let d = delete_times(v, (n - 1) as nat);
        assert(d.delete().deleted.take(v.deleted.len() as int) =~= d.deleted.take(
            v.deleted.len() as int,
        ));
    } else {
        assert(v.deleted.take(v.deleted.len() as int) =~= v.deleted);
    }
}

proof fn lemma_undelete_times(w: HistoryView, n: nat)
    requires
        n <= w.deleted.len(),
    ensures
        undelete_times(w, n).deleted == w.deleted.take(w.deleted.len() - n),
        undelete_times(w, n).hist == w.hist + w.deleted.skip(w.deleted.len() - n).reverse(),
    decreases n,
{
    let len = w.deleted.len();
    if n > 0 {
        lemma_undelete_times(w, (n - 1) as nat);
        let u = undelete_times(w, (n - 1) as nat);
        assert(u.deleted.last() == w.deleted[len - n]);
        assert(u.deleted.drop_last() =~= w.deleted.take(len - n));
        assert(w.deleted.skip(len - n + 1).reverse().push(w.deleted[len - n]) =~= w.deleted.skip(
            len - n,
        ).reverse());
        assert(u.hist.push(w.deleted[len - n]) =~= w.hist + w.deleted.skip(len - n).reverse());
    } else {
        assert(w.deleted.take(len as int) =~= w.deleted);
        assert(w.deleted.skip(len as int).reverse() =~= Seq::<Seq<char>>::empty());
        assert(w.hist + Seq::<Seq<char>>::empty() =~= w.hist);
    }
}

/// Deleting `n` entries and then undeleting `n` times leaves the deleted
/// stack as it was, and appends to the history list the `n` deleted entries
/// in the reverse of the order in which they were deleted.
pub proof fn lemma_undelete_reverses(v: HistoryView, n: nat)
    requires
        v.wf(),
        n <= v.active_list().len(),
    ensures
        delete_times(v, n).deleted == v.deleted + delete_times(v, n).deleted.skip(
            v.deleted.len() as int,
        ),
        undelete_times(delete_times(v, n), n).deleted == v.deleted,
        undelete_times(delete_times(v, n), n).hist == delete_times(v, n).hist + delete_times(
            v,
            n,
        ).deleted.skip(v.deleted.len() as int).reverse(),
{
    lemma_delete_times(v, n);
    let d = delete_times(v, n);
    lemma_undelete_times(d, n);
    assert(d.deleted =~= v.deleted + d.deleted.skip(v.deleted.len() as int));
}

/// Output read in two pieces leaves the history as the same output read in
/// one: the same entries, in the same order, and the same scanner state.
pub proof fn lemma_after_scan_chunks(v: HistoryView, a: Seq<u8>, b: Seq<u8>)
    ensures
        v.after_scan(a + b) == v.after_scan(a).after_scan(b),
{
    lemma_scan_chunks(v.scan, a, b);
    let ra = scan(v.scan, a);
    let rb = scan(ra.0, b);
    assert(decoded(ra.1 + rb.1) =~= decoded(ra.1) + decoded(rb.1));
    assert(v.hist + decoded(ra.1 + rb.1) =~= v.hist + decoded(ra.1) + decoded(rb.1));
}

/// The ends of a line that the console prints: a line feed, a carriage
/// return, or both.
pub open spec fn is_line_end(end: Seq<u8>) -> bool {
    end == seq![LF] || end == seq![CR] || end == seq![CR, LF]
}

/// The scanner told that the user sent a line terminator.
pub open spec fn entered(v: HistoryView) -> HistoryView {
    HistoryView { scan: ScanModel { enter_seen: true, ..v.scan }, ..v }
}

/// The user sends each line in turn: the scanner is told of the line
/// terminator, then reads the prompt, the command `cmds[i]` and the line end
/// `ends[i]` that the console echoes.
pub open spec fn typed_lines(v: HistoryView, cmds: Seq<Seq<u8>>, ends: Seq<Seq<u8>>) -> HistoryView
    decreases cmds.len(),
{
    if cmds.len() == 0 {
        v
    } else {
        entered(typed_lines(v, cmds.drop_last(), ends.drop_last())).after_scan(
            prompt() + cmds.last() + ends.last(),
        )
    }
}

/// A command typed after the prompt and sent with a line terminator by the
/// user is appended once to the history list, decoded from its bytes,
/// whichever line end the console prints.
pub proof fn lemma_prompted_command(v: HistoryView, text: Seq<u8>, end: Seq<u8>)
    requires
        v.scan == ScanModel::line_start(true),
        text.len() > 0,
        forall|i: int| 0 <= i < text.len() ==> is_printable(#[trigger] text[i]),
        is_line_end(end),
    ensures
        v.after_scan(prompt() + text + end).hist == v.hist.push(command_text(text)),
        v.after_scan(prompt() + text + end).scan == ScanModel::line_start(false),
{
    assert(decoded(seq![text]) =~= seq![command_text(text)]);
    assert(v.hist + seq![command_text(text)] =~= v.hist.push(command_text(text)));
    if end == seq![CR, LF] {
        let first = prompt() + text + seq![CR];
        lemma_prompted_line(text, CR);
        assert(prompt() + text + end =~= first + seq![LF]);
        lemma_after_scan_chunks(v, first, seq![LF]);
        lemma_empty_line(false, LF);
        lemma_append_none(v.hist.push(command_text(text)));
    } else {
        lemma_prompted_line(text, end[0]);
        assert(end =~= seq![end[0]]);
    }
}

/// Each command typed after the prompt and sent with a line terminator by
/// the user is appended to the history list exactly once, decoded from its
/// bytes, in the order typed.
pub proof fn lemma_typed_lines(v: HistoryView, cmds: Seq<Seq<u8>>, ends: Seq<Seq<u8>>)
    requires
        v.scan.armed,
        v.scan.line == Seq::<u8>::empty(),
        v.scan.pos == 0,
        ends.len() == cmds.len(),
        forall|i: int| 0 <= i < cmds.len() ==> (#[trigger] cmds[i]).len() > 0,
        forall|i: int, j: int|
            0 <= i < cmds.len() && 0 <= j < cmds[i].len() ==> is_printable(#[trigger] cmds[i][j]),
        forall|i: int| 0 <= i < ends.len() ==> is_line_end(#[trigger] ends[i]),
    ensures
        typed_lines(v, cmds, ends).hist == v.hist + decoded(cmds),
        cmds.len() > 0 ==> typed_lines(v, cmds, ends).scan == ScanModel::line_start(false),
    decreases cmds.len(),
{
    if cmds.len() == 0 {
        assert(cmds =~= Seq::<Seq<u8>>::empty());
        lemma_append_none(v.hist);
    } else {
        let init = cmds.drop_last();
        let ends_init = ends.drop_last();
        assert forall|i: int| 0 <= i < init.len() implies (#[trigger] init[i]).len() > 0 by {
            assert(init[i] == cmds[i]);
        }
        assert forall|i: int, j: int|
            0 <= i < init.len() && 0 <= j < init[i].len() implies is_printable(
            #[trigger] init[i][j],
        ) by {
            assert(init[i] == cmds[i]);
        }
        assert forall|i: int| 0 <= i < ends_init.len() implies is_line_end(
            #[trigger] ends_init[i],
        ) by {
            assert(ends_init[i] == ends[i]);
        }
        lemma_typed_lines(v, init, ends_init);
        let w = typed_lines(v, init, ends_init);
        let t = cmds.last();
        assert(cmds[cmds.len() - 1] == t);
        assert forall|j: int| 0 <= j < t.len() implies is_printable(#[trigger] t[j]) by {
            assert(is_printable(cmds[cmds.len() - 1][j]));
        }
        assert(is_line_end(ends[ends.len() - 1]));
        assert(entered(w).scan == ScanModel::line_start(true));
        lemma_prompted_command(entered(w), t, ends.last());
        assert(decoded(cmds) =~= decoded(init).push(command_text(t)));
        assert(v.hist + decoded(init).push(command_text(t)) =~= (v.hist + decoded(init)).push(
            command_text(t),
        ));
    }
}

/// The history lists, their cursors, and the scanner that fills the history
/// list from the console output.
pub struct History {
    hist: Vec<String>,
    conf: Vec<String>,
    deleted: Vec<String>,
    /// The line being read, up to its high-water length.
    curr_command: Vec<u8>,
    curr_command_ptr: usize,
    vpp_prefix: bool,
    was_enter: bool,
    hist_selected: usize,
    conf_selected: usize,
    active_widget: ActiveWidget,
    info: Option<String>,
}

impl View for History {
    type V = HistoryView;

    closed spec fn view(&self) -> HistoryView {
        HistoryView {
            hist: texts(self.hist@),
            conf: texts(self.conf@),
            deleted: texts(self.deleted@),
            hist_sel: self.hist_selected as nat,
            conf_sel: self.conf_selected as nat,
            active: self.active_widget,
            info: match self.info {
                Some(s) => Some(s@),
                None => None,
            },
            scan: ScanModel {
                line: self.curr_command@,
                pos: self.curr_command_ptr as nat,
                armed: self.vpp_prefix,
                enter_seen: self.was_enter,
            },
        }
    }
}

impl History {
    pub open spec fn inv(&self) -> bool {
        self@.wf()
    }

    pub fn new() -> (r: History)
        ensures
            r@ == HistoryView::initial(),
            r.inv(),
    {
        let r = History {
            hist: Vec::new(),
            conf: Vec::new(),
            deleted: Vec::new(),
            curr_command: Vec::new(),
            curr_command_ptr: 0,
            vpp_prefix: true,
            was_enter: false,
            hist_selected: 0,
            conf_selected: 0,
            active_widget: ActiveWidget::Hist,
            info: None,
        };
        proof {
            assert(r@.hist =~= Seq::<Seq<char>>::empty());
            assert(r@.conf =~= Seq::<Seq<char>>::empty());
            assert(r@.deleted =~= Seq::<Seq<char>>::empty());
            assert(r@.scan.line =~= Seq::<u8>::empty());
        }
        r
    }

    pub fn get_info_text(&self) -> (r: Option<&String>)
        ensures
            match r {
                Some(t) => self@.info == Some(t@),
                None => self@.info is None,
            },
    {
        self.info.as_ref()
    }

    pub fn set_info_text(&mut self, text: String)
        ensures
            final(self)@ == (HistoryView { info: Some(text@), ..old(self)@ }),
    {
        self.info = Some(text);
    }

    pub fn clear_info_text(&mut self)
        ensures
            final(self)@ == (HistoryView { info: None, ..old(self)@ }),
    {
        self.info = None;
    }

    pub fn get_hist_selected(&self) -> (r: usize)
        ensures
            r == self@.hist_sel,
    {
        self.hist_selected
    }

    pub fn get_conf_selected(&self) -> (r: usize)
        ensures
            r == self@.conf_sel,
    {
        self.conf_selected
    }

    pub fn get_active_widget(&self) -> (r: &ActiveWidget)
        ensures
            *r == self@.active,
    {
        &self.active_widget
    }

    /// The history list, for display.
    pub fn hist(&self) -> (r: &Vec<String>)
        ensures
            texts(r@) == self@.hist,
    {
        &self.hist
    }

    /// The configuration list, for display.
    pub fn conf(&self) -> (r: &Vec<String>)
        ensures
            texts(r@) == self@.conf,
    {
        &self.conf
    }

    pub fn toggle_active_widget(&mut self)
        requires
            old(self).inv(),
        ensures
            final(self).inv(),
            final(self)@ == old(self)@.toggled(),
    {
        match self.active_widget {
            ActiveWidget::Conf => self.active_widget = ActiveWidget::Hist,
            ActiveWidget::Hist => self.active_widget = ActiveWidget::Conf,
        };
    }

    /// Move the active cursor one entry down, unless it is on the last.
    pub fn down(&mut self)
        requires
            old(self).inv(),
        ensures
            final(self).inv(),
            final(self)@ == old(self)@.down(),
    {
        match self.active_widget {
            ActiveWidget::Hist => Self::down_(&mut self.hist_selected, self.hist.len()),
            ActiveWidget::Conf => Self::down_(&mut self.conf_selected, self.conf.len()),
        }
    }

    fn down_(selected: &mut usize, len: usize)
        ensures
            *final(selected) as nat == step_down(*old(selected) as nat, len as nat),
    {
        if len > 0 && *selected < len - 1 {
            *selected = *selected + 1;
        }
    }

    /// Move the active cursor one entry up, unless it is on the first.
    pub fn up(&mut self)
        requires
            old(self).inv(),
        ensures
            final(self).inv(),
            final(self)@ == old(self)@.up(),
    {
        match self.active_widget {
            ActiveWidget::Hist => Self::up_(&mut self.hist_selected),
            ActiveWidget::Conf => Self::up_(&mut self.conf_selected),
        }
    }

    fn up_(selected: &mut usize)
        ensures
            *final(selected) as nat == step_up(*old(selected) as nat),
    {
        if *selected > 0 {
            *selected = *selected - 1;
        }
    }

    /// Move the entry under the active cursor one place up, with the cursor.
    pub fn move_up(&mut self)
        requires
            old(self).inv(),
        ensures
            final(self).inv(),
            final(self)@ == old(self)@.move_up(),
    {
        match self.active_widget {
            ActiveWidget::Hist => Self::move_up_(&mut self.hist, &mut self.hist_selected),
            ActiveWidget::Conf => Self::move_up_(&mut self.conf, &mut self.conf_selected),
        }
    }

    fn move_up_(list: &mut Vec<String>, selected: &mut usize)
        requires
            cursor_ok(*old(selected) as nat, old(list)@.len()),
        ensures
            texts(final(list)@) == reorder_up(texts(old(list)@), *old(selected) as nat).0,
            *final(selected) as nat == reorder_up(texts(old(list)@), *old(selected) as nat).1,
    {
        if *selected > 0 {
            let i = *selected;
            let x = list.remove(i);
            list.insert(i - 1, x);
            *selected = i - 1;
            proof {
                assert(list@ =~= swapped(old(list)@, i as int, i - 1));
                assert(texts(list@) =~= swapped(texts(old(list)@), i as int, i - 1));
            }
        }
    }

    /// Move the entry under the active cursor one place down, with the
    /// cursor.
    pub fn move_down(&mut self)
        requires
            old(self).inv(),
        ensures
            final(self).inv(),
            final(self)@ == old(self)@.move_down(),
    {
        match self.active_widget {
            ActiveWidget::Hist => Self::move_down_(&mut self.hist, &mut self.hist_selected),
            ActiveWidget::Conf => Self::move_down_(&mut self.conf, &mut self.conf_selected),
        }
    }

    fn move_down_(list: &mut Vec<String>, selected: &mut usize)
        requires
            cursor_ok(*old(selected) as nat, old(list)@.len()),
        ensures
            texts(final(list)@) == reorder_down(texts(old(list)@), *old(selected) as nat).0,
            *final(selected) as nat == reorder_down(texts(old(list)@), *old(selected) as nat).1,
    {
        if list.len() > 0 && *selected < list.len() - 1 {
            let i = *selected;
            let x = list.remove(i);
            list.insert(i + 1, x);
            *selected = i + 1;
            proof {
                assert(list@ =~= swapped(old(list)@, i as int, i + 1));
                assert(texts(list@) =~= swapped(texts(old(list)@), i as int, i + 1));
            }
        }
    }

    /// Move the entry under the active cursor onto the deleted stack.
    pub fn delete(&mut self)
        requires
            old(self).inv(),
        ensures
            final(self).inv(),
            final(self)@ == old(self)@.delete(),
    {
        match self.active_widget {
            ActiveWidget::Hist => {
                Self::delete_(&mut self.hist, &mut self.hist_selected, &mut self.deleted)
            },
            ActiveWidget::Conf => {
                Self::delete_(&mut self.conf, &mut self.conf_selected, &mut self.deleted)
            },
        }
    }

    fn delete_(list: &mut Vec<String>, selected: &mut usize, deleted: &mut Vec<String>)
        requires
            cursor_ok(*old(selected) as nat, old(list)@.len()),
        ensures
            old(list)@.len() > 0 ==> {
                &&& texts(final(list)@) == texts(old(list)@).remove(*old(selected) as int)
                &&& texts(final(deleted)@) == texts(old(deleted)@).push(
                    texts(old(list)@)[*old(selected) as int],
                )
                &&& *final(selected) as nat == clamped(
                    *old(selected) as nat,
                    (old(list)@.len() - 1) as nat,
                )
            },
            old(list)@.len() == 0 ==> {
                &&& final(list)@ == old(list)@
                &&& final(deleted)@ == old(deleted)@
                &&& *final(selected) == *old(selected)
            },
    {
        if list.len() > 0 {
            let el = list.remove(*selected);
            deleted.push(el);
            if *selected >= list.len() && list.len() > 0 {
                *selected = list.len() - 1;
            }
            proof {
                assert(texts(list@) =~= texts(old(list)@).remove(*old(selected) as int));
                assert(texts(deleted@) =~= texts(old(deleted)@).push(
                    texts(old(list)@)[*old(selected) as int],
                ));
            }
        }
    }

    /// Put the last deleted entry back, at the end of the history list.
    pub fn undelete(&mut self)
        requires
            old(self).inv(),
        ensures
            final(self).inv(),
            final(self)@ == old(self)@.undelete(),
    {
        let res = self.deleted.pop();
        if let Some(el) = res {
            self.hist.push(el);
            proof {
                assert(texts(self.hist@) =~= texts(old(self).hist@).push(
                    texts(old(self).deleted@).last(),
                ));
                assert(texts(self.deleted@) =~= texts(old(self).deleted@).drop_last());
            }
        }
    }

    /// Copy the history entry under its cursor into the configuration list:
    /// at its end while the history list is active, at its cursor otherwise.
    pub fn copy(&mut self)
        requires
            old(self).inv(),
        ensures
            final(self).inv(),
            final(self)@ == old(self)@.copy(),
    {
        let index = self.hist_selected;
        if index < self.hist.len() {
            let com = self.hist[index].clone();
            match self.active_widget {
                ActiveWidget::Hist => {
                    self.conf.push(com);
                    proof {
                        assert(texts(self.conf@) =~= texts(old(self).conf@).push(
                            texts(old(self).hist@)[index as int],
                        ));
                    }
                },
                ActiveWidget::Conf => {
                    self.conf.insert(self.conf_selected, com);
                    proof {
                        assert(texts(self.conf@) =~= texts(old(self).conf@).insert(
                            self.conf_selected as int,
                            texts(old(self).hist@)[index as int],
                        ));
                    }
                },
            }
        }
    }

    /// Forget the line being read.
    pub fn reset_curr_comand(&mut self)
        requires
            old(self).inv(),
        ensures
            final(self).inv(),
            final(self)@ == (HistoryView {
                scan: ScanModel { line: Seq::empty(), pos: 0, ..old(self)@.scan },
                ..old(self)@
            }),
    {
        self.curr_command.clear();
        self.curr_command_ptr = 0;
    }

    /// Note that the user has sent a line terminator.
    pub fn was_enter(&mut self)
        requires
            old(self).inv(),
        ensures
            final(self).inv(),
            final(self)@ == (HistoryView {
                scan: ScanModel { enter_seen: true, ..old(self)@.scan },
                ..old(self)@
            }),
    {
        self.was_enter = true;
    }

    /// Read one byte of console output.
    fn take_byte(&mut self, c: u8)
        requires
            old(self).inv(),
        ensures
            final(self).inv(),
            final(self)@ == old(self)@.after_scan(seq![c]),
    {
        proof {
            let s0 = old(self)@.scan;
            lemma_scan_one(s0, c);
            lemma_scan_byte_wf(s0, c);
        }
        if self.vpp_prefix {
            if c == LF || c == CR {
                let len = self.curr_command.len();
                if len > PROMPT_LEN && self.was_enter {
                    let line = slice_subrange(self.curr_command.as_slice(), PROMPT_LEN, len);
                    let cmd = decode_lossy(line);
                    self.hist.push(cmd);
                    proof {
                        let b = old(self)@.scan.line.subrange(PROMPT_LEN as int, len as int);
                        assert(texts(self.hist@) =~= old(self)@.hist + decoded(seq![b]));
                    }
                } else {
                    proof {
                        lemma_append_none(old(self)@.hist);
                    }
                }
                self.curr_command.clear();
                self.curr_command_ptr = 0;
                self.was_enter = false;
            } else {
                proof {
                    lemma_append_none(old(self)@.hist);
                }
                if c == BACKSPACE {
                    if self.curr_command_ptr > 0 {
                        self.curr_command_ptr = self.curr_command_ptr - 1;
                    }
                } else if c >= FIRST_PRINTABLE {
                    let ptr = self.curr_command_ptr;
                    if ptr < self.curr_command.len() {
                        self.curr_command[ptr] = c;
                        self.curr_command_ptr = ptr + 1;
                    } else {
                        self.curr_command.push(c);
                        self.curr_command_ptr = self.curr_command.len();
                    }
                    if self.curr_command.len() == PROMPT_LEN && !is_prompt(&self.curr_command) {
                        self.vpp_prefix = false;
                        self.curr_command.clear();
                        self.curr_command_ptr = 0;
                    }
                }
            }
        } else {
            proof {
                lemma_append_none(old(self)@.hist);
            }
            if c == LF {
                self.vpp_prefix = true;
            }
        }
    }

    /// Read console output and append to the history list each command that
    /// it completes.
    pub fn collect_history(&mut self, response: &[u8])
        requires
            old(self).inv(),
        ensures
            final(self).inv(),
            final(self)@ == old(self)@.after_scan(response@),
    {
        let mut i: usize = 0;
        proof {
            assert(response@.take(0) =~= Seq::<u8>::empty());
            lemma_append_none(old(self)@.hist);
        }
        while i < response.len()
            invariant
                self.inv(),
                0 <= i <= response@.len(),
                self@ == old(self)@.after_scan(response@.take(i as int)),
            decreases response@.len() - i,
        {
            let c = response[i];
            self.take_byte(c);
            proof {
                let pre = response@.take(i as int);
                assert(pre + seq![c] =~= response@.take(i + 1));
                lemma_after_scan_chunks(old(self)@, pre, seq![c]);
            }
            i = i + 1;
        }
        proof {
            assert(response@.take(response@.len() as int) =~= response@);
        }
    }
}

/// Whether a line of the prompt's length is the prompt.
fn is_prompt(line: &Vec<u8>) -> (r: bool)
    requires
        line@.len() == PROMPT_LEN,
    ensures
        r == (line@ == prompt()),
{
    let r = line[0] == 118u8 && line[1] == 112u8 && line[2] == 112u8 && line[3] == 35u8
        && line[4] == 32u8;
    proof {
        if r {
            assert(line@ =~= prompt());
        } else {
            assert(line@ != prompt()) by {
                if line@ == prompt() {
                    assert(line@[0] == prompt()[0]);
                    assert(line@[1] == prompt()[1]);
                    assert(line@[2] == prompt()[2]);
                    assert(line@[3] == prompt()[3]);
                    assert(line@[4] == prompt()[4]);
                }
            }
        }
    }
    r
}

} // verus!
