//! Parser events applied to a `Screen`: printable text is buffered and
//! flushed before any control action; cursor reports are queued as replies.
use vstd::prelude::*;

use crate::action::{ActionView, VtAction};
use crate::model::{min, ScreenView};
use crate::model::valid_size;
use crate::screen::{Screen, ScreenSizeError};
use crate::text::{decimal, push_decimal};

verus! {

/// Parameter groups as plain sequences.
pub open spec fn groups_view(p: Seq<Vec<u16>>) -> Seq<Seq<u16>> {
    p.map_values(|g: Vec<u16>| g@)
}

/// The first value of group `n`, or `default` when it is absent.
pub open spec fn nth_param(params: Seq<Seq<u16>>, n: int, default: int) -> int {
    if 0 <= n < params.len() && params[n].len() > 0 {
        params[n][0] as int
    } else {
        default
    }
}

/// Counts for cursor motion: absent or zero means one.
pub open spec fn count_param(params: Seq<Seq<u16>>) -> int {
    let v = nth_param(params, 0, 1);
    if v < 1 {
        1
    } else {
        v
    }
}

/// All values of all groups, in order (sub-parameters included).
pub open spec fn flatten_params(p: Seq<Seq<u16>>) -> Seq<i64>
    decreases p.len(),
{
    if p.len() == 0 {
        Seq::empty()
    } else {
        flatten_params(p.drop_last()) + p.last().map_values(|v: u16| v as i64)
    }
}

/// Print each char of `chars` in turn.
pub open spec fn put_all(v: ScreenView, chars: Seq<char>) -> ScreenView
    decreases chars.len(),
{
    if chars.len() == 0 {
        v
    } else {
        put_all(v, chars.drop_last()).put(chars.last())
    }
}

/// `n` horizontal tabs.
pub open spec fn tab_n(v: ScreenView, n: nat) -> ScreenView
    decreases n,
{
    if n == 0 {
        v
    } else {
        tab_n(v, (n - 1) as nat).tab()
    }
}

/// Set or reset each DEC private mode of `modes` in turn.
pub open spec fn set_modes(v: ScreenView, modes: Seq<i64>, set: bool) -> ScreenView
    decreases modes.len(),
{
    if modes.len() == 0 {
        v
    } else {
        set_modes(v, modes.drop_last(), set).set_private_mode(modes.last(), set)
    }
}

/// The effect of a C0 control.
pub open spec fn execute_screen(v: ScreenView, byte: u8) -> ScreenView {
    if byte == 0x0d {
        v.carriage_return()
    } else if byte == 0x0a || byte == 0x0b || byte == 0x0c {
        v.line_feed()
    } else if byte == 0x08 {
        v.backspace()
    } else if byte == 0x09 {
        v.tab()
    } else {
        v
    }
}

/// The effect of a CSI sequence with final character `action`; `private`
/// is its first intermediate byte.
pub open spec fn csi_screen(
    v: ScreenView,
    params: Seq<Seq<u16>>,
    private: Option<u8>,
    action: char,
) -> ScreenView {
    let n = count_param(params);
    if action == 'A' {
        v.move_cursor(-n, 0)
    } else if action == 'B' || action == 'e' {
        v.move_cursor(n, 0)
    } else if action == 'C' || action == 'a' {
        v.move_cursor(0, n)
    } else if action == 'D' {
        v.move_cursor(0, -n)
    } else if action == 'E' {
        v.carriage_return().move_cursor(n, 0)
    } else if action == 'F' {
        v.carriage_return().move_cursor(-n, 0)
    } else if action == 'G' || action == '`' {
        v.goto(v.cursor_row as int, nth_param(params, 0, 1) - 1)
    } else if action == 'H' || action == 'f' {
        v.goto(nth_param(params, 0, 1) - 1, nth_param(params, 1, 1) - 1)
    } else if action == 'I' {
        tab_n(v, n as nat)
    } else if action == 'J' {
        v.erase_display(nth_param(params, 0, 0) as i64)
    } else if action == 'K' {
        v.erase_line(nth_param(params, 0, 0) as i64)
    } else if action == '@' {
        v.insert_blanks(nth_param(params, 0, 1))
    } else if action == 'P' {
        v.delete_chars(nth_param(params, 0, 1))
    } else if action == 'r' {
        let top = nth_param(params, 0, 1);
        let bottom = nth_param(params, 1, 0);
        let bottom = if bottom == 0 {
            24000
        } else {
            bottom
        };
        v.set_scroll_region(top, bottom).goto(0, 0)
    } else if action == 'S' {
        v.scroll_up(n)
    } else if action == 'T' {
        v.scroll_down(n)
    } else if action == 'd' {
        v.goto(nth_param(params, 0, 1) - 1, v.cursor_col as int)
    } else if action == 'm' {
        v.sgr(flatten_params(params))
    } else if (action == 'h' || action == 'l') && private == Some(0x3fu8) {
        set_modes(v, flatten_params(params), action == 'h')
    } else {
        v
    }
}

/// The cursor position report `ESC [ row ; col R`, 1-based, for the
/// visible cursor.
pub open spec fn cursor_report(v: ScreenView) -> Seq<u8> {
    let (col, row) = v.visible_cursor();
    seq![0x1bu8, 0x5bu8] + decimal((row + 1) as nat) + seq![0x3bu8] + decimal((col + 1) as nat)
        + seq![0x52u8]
}

/// The reply a CSI sequence asks for: `CSI 6 n` (device status report)
/// asks for the cursor position.
pub open spec fn csi_reply(
    v: ScreenView,
    params: Seq<Seq<u16>>,
    private: Option<u8>,
    action: char,
) -> Option<Seq<u8>> {
    if action == 'n' && private is None && nth_param(params, 0, 0) == 6 {
        Some(cursor_report(v))
    } else {
        None
    }
}

/// The effect of an escape sequence without parameters.
pub open spec fn esc_screen(v: ScreenView, intermediates: Seq<u8>, byte: u8) -> ScreenView {
    if intermediates.len() != 0 {
        v
    } else if byte == 0x37 {
        v.save_cursor()
    } else if byte == 0x38 {
        v.restore_cursor()
    } else if byte == 0x4d {
        if v.can_reverse_index() {
            v.reverse_index()
        } else {
            v
        }
    } else if byte == 0x63 {
        ScreenView::initial(v.cols, v.rows, 10000)
    } else {
        v
    }
}

/// The private-marker byte of a CSI sequence: its first intermediate.
pub open spec fn first_intermediate(intermediates: Seq<u8>) -> Option<u8> {
    if intermediates.len() > 0 {
        Some(intermediates[0])
    } else {
        None
    }
}

/// The effect of one parser event on a performer: printable chars wait;
/// every other event first puts the waiting chars on the screen.
pub open spec fn apply_action(p: PerformerView, a: ActionView) -> PerformerView {
    let s = put_all(p.screen, p.pending);
    match a {
        ActionView::Print(c) => PerformerView {
            screen: p.screen,
            pending: p.pending.push(c),
            replies: p.replies,
        },
        ActionView::Execute(b) => PerformerView {
            screen: execute_screen(s, b),
            pending: Seq::empty(),
            replies: p.replies,
        },
        ActionView::Csi { params, intermediates, ignore, action } => PerformerView {
            screen: csi_screen(s, params, first_intermediate(intermediates), action),
            pending: Seq::empty(),
            replies: match csi_reply(s, params, first_intermediate(intermediates), action) {
                Some(reply) => p.replies.push(reply),
                None => p.replies,
            },
        },
        ActionView::Esc { intermediates, ignore, byte } => PerformerView {
            screen: esc_screen(s, intermediates, byte),
            pending: Seq::empty(),
            replies: p.replies,
        },
    }
}

/// The effect of a list of parser events, in order.
pub open spec fn apply_actions(p: PerformerView, actions: Seq<ActionView>) -> PerformerView
    decreases actions.len(),
{
    if actions.len() == 0 {
        p
    } else {
        apply_action(apply_actions(p, actions.drop_last()), actions.last())
    }
}

/// Applying two lists of events one after the other is applying their
/// concatenation.
pub proof fn lemma_apply_actions_append(p: PerformerView, a: Seq<ActionView>, b: Seq<ActionView>)
    ensures
        apply_actions(apply_actions(p, a), b) == apply_actions(p, a + b),
    decreases b.len(),
{
    if b.len() == 0 {
        assert(a + b =~= a);
    } else {
        lemma_apply_actions_append(p, a, b.drop_last());
        assert((a + b).drop_last() =~= a + b.drop_last());
        assert((a + b).last() == b.last());
    }
}

/// Drives a [`Screen`] from parser events.
pub struct TermPerformer {
    pub screen: Screen,
    /// Pending printable chars, flushed before any control action.
    printed: Vec<char>,
    /// Replies to the host not yet taken.
    responses: Vec<Vec<u8>>,
}

/// The abstract state of a performer.
#[verifier::ext_equal]
pub struct PerformerView {
    pub screen: ScreenView,
    /// Printable chars not yet on the screen.
    pub pending: Seq<char>,
    /// Replies not yet taken, oldest first.
    pub replies: Seq<Seq<u8>>,
}

impl View for TermPerformer {
    type V = PerformerView;

    closed spec fn view(&self) -> PerformerView {
        PerformerView {
            screen: self.screen@,
            pending: self.printed@,
            replies: self.responses@.map_values(|r: Vec<u8>| r@),
        }
    }
}

impl TermPerformer {
    /// The screen being driven.
    pub fn screen(&self) -> (s: &Screen)
        ensures
            s@ == self@.screen,
    {
        &self.screen
    }

    /// Resize the screen (see [`Screen::resize`]).
    pub fn resize(&mut self, cols: u16, rows: u16) -> (r: Result<(), ScreenSizeError>)
        ensures
            r is Ok <==> valid_size(cols as int, rows as int),
            r is Ok ==> final(self)@.screen == old(self)@.screen.resize(cols, rows),
            r is Err ==> final(self)@.screen == old(self)@.screen,
            final(self)@.pending == old(self)@.pending,
            final(self)@.replies == old(self)@.replies,
    {
        self.screen.resize(cols, rows)
    }

    /// The screen, giving up the performer (pending chars are dropped; flush first).
    pub fn into_screen(self) -> (s: Screen)
        ensures
            s@ == self@.screen,
    {
        self.screen
    }

    pub fn new(screen: Screen) -> (p: Self)
        ensures
            p@.screen == screen@,
            p@.pending == Seq::<char>::empty(),
            p@.replies == Seq::<Seq<u8>>::empty(),
    {
        let p = TermPerformer { screen, printed: Vec::new(), responses: Vec::new() };
        proof {
            assert(p@.replies =~= Seq::<Seq<u8>>::empty());
        }
        p
    }

    /// Print the pending chars.
    fn flush_printed(&mut self)
        ensures
            final(self)@.screen == put_all(old(self)@.screen, old(self)@.pending),
            final(self)@.pending == Seq::<char>::empty(),
            final(self)@.replies == old(self)@.replies,
    {
        let mut i: usize = 0;
        while i < self.printed.len()
            invariant
                i <= self.printed@.len(),
                self.printed@ == old(self).printed@,
                self.responses@ == old(self).responses@,
                self.screen@ == put_all(old(self)@.screen, self.printed@.take(i as int)),
            decreases self.printed.len() - i,
        {
            let ch = self.printed[i];
            self.screen.put(ch);
            proof {
                assert(self.printed@.take(i + 1).drop_last() =~= self.printed@.take(i as int));
            }
            i = i + 1;
        }
        proof {
            assert(self.printed@.take(i as int) =~= self.printed@);
        }
        self.printed.clear();
    }

    /// Flush pending printable chars into the screen. Call at frame /
    /// read-buffer boundaries so trailing text without a trailing control
    /// character still lands.
    pub fn flush(&mut self)
        ensures
            final(self)@.screen == put_all(old(self)@.screen, old(self)@.pending),
            final(self)@.pending == Seq::<char>::empty(),
            final(self)@.replies == old(self)@.replies,
    {
        self.flush_printed();
    }

    /// A printable char: kept until the next flush.
    pub fn print_char(&mut self, c: char)
        ensures
            final(self)@.screen == old(self)@.screen,
            final(self)@.pending == old(self)@.pending.push(c),
            final(self)@.replies == old(self)@.replies,
    {
        self.printed.push(c);
    }

    /// Take the queued replies, oldest first.
    pub fn take_responses(&mut self) -> (r: Vec<Vec<u8>>)
        ensures
            r@.map_values(|x: Vec<u8>| x@) == old(self)@.replies,
            final(self)@.replies == Seq::<Seq<u8>>::empty(),
            final(self)@.screen == old(self)@.screen,
            final(self)@.pending == old(self)@.pending,
    {
        let mut taken: Vec<Vec<u8>> = Vec::new();
        std::mem::swap(&mut self.responses, &mut taken);
        proof {
            assert(self@.replies =~= Seq::<Seq<u8>>::empty());
        }
        taken
    }

    /// A C0 control: flush, then act on CR, LF/VT/FF, BS and HT.
    pub fn execute_byte(&mut self, byte: u8)
        ensures
            final(self)@.screen == execute_screen(put_all(old(self)@.screen, old(self)@.pending), byte),
            final(self)@.pending == Seq::<char>::empty(),
            final(self)@.replies == old(self)@.replies,
    {
        self.flush_printed();
        if byte == 0x0d {
            self.screen.carriage_return();
        } else if byte == 0x0a || byte == 0x0b || byte == 0x0c {
            self.screen.line_feed();
        } else if byte == 0x08 {
            self.screen.backspace();
        } else if byte == 0x09 {
            self.screen.tab();
        }
    }

    /// An escape sequence: DECSC, DECRC, RI and RIS.
    pub fn handle_esc(&mut self, intermediates: &[u8], byte: u8)
        ensures
            final(self)@.screen == esc_screen(put_all(old(self)@.screen, old(self)@.pending), intermediates@, byte),
            final(self)@.pending == Seq::<char>::empty(),
            final(self)@.replies == old(self)@.replies,
    {
        self.flush_printed();
        if intermediates.len() != 0 {
            return;
        }
        if byte == 0x37 {
            self.screen.save_cursor();
        } else if byte == 0x38 {
            self.screen.restore_cursor();
        } else if byte == 0x4d {
            if self.screen.can_reverse_index() {
                self.screen.reverse_index();
            }
        } else if byte == 0x63 {
            proof {
                use_type_invariant(&self.screen);
            }
            let cols = self.screen.cols();
            let rows = self.screen.rows();
            self.screen = Screen::with_scrollback_cap(cols, rows, 10000);
        }
    }

    /// Act on one parser event.
    pub fn perform(&mut self, action: &VtAction)
        ensures
            final(self)@ == apply_action(old(self)@, action@),
    {
        match action {
            VtAction::Print(c) => self.print_char(*c),
            VtAction::Execute(b) => self.execute_byte(*b),
            VtAction::Csi { params, intermediates, ignore: _, action } => {
                self.handle_csi(params, intermediates.as_slice(), *action);
            },
            VtAction::Esc { intermediates, ignore: _, byte } => {
                self.handle_esc(intermediates.as_slice(), *byte);
            },
        }
    }

    /// A CSI sequence: flush, then act on it; a cursor position request
    /// queues its reply.
    pub fn handle_csi(&mut self, params: &Vec<Vec<u16>>, intermediates: &[u8], action: char)
        ensures
            final(self)@.screen == csi_screen(
                put_all(old(self)@.screen, old(self)@.pending),
                groups_view(params@),
                if intermediates@.len() > 0 {
                    Some(intermediates@[0])
                } else {
                    None::<u8>
                },
                action,
            ),
            final(self)@.pending == Seq::<char>::empty(),
            final(self)@.replies == match csi_reply(
                put_all(old(self)@.screen, old(self)@.pending),
                groups_view(params@),
                if intermediates@.len() > 0 {
                    Some(intermediates@[0])
                } else {
                    None::<u8>
                },
                action,
            ) {
                Some(reply) => old(self)@.replies.push(reply),
                None => old(self)@.replies,
            },
    {
        self.flush_printed();
        let ghost s0 = self.screen@;
        let ghost ps = groups_view(params@);
        let private: Option<u8> = if intermediates.len() > 0 {
            Some(intermediates[0])
        } else {
            None
        };
        if csi_moves_cursor(action) {
            csi_motion(&mut self.screen, params, private, action);
        } else {
            csi_edit(&mut self.screen, params, private, action);
        }
        if action == 'n' && private.is_none() && nth_param_exec(params, 0, 0) == 6 {
            let (col, row) = self.screen.visible_cursor();
            let mut reply: Vec<u8> = Vec::new();
            reply.push(0x1b);
            reply.push(0x5b);
            push_decimal(&mut reply, row as u64 + 1);
            reply.push(0x3b);
            push_decimal(&mut reply, col as u64 + 1);
            reply.push(0x52);
            let ghost rv = reply@;
            self.responses.push(reply);
            proof {
                assert(rv =~= cursor_report(s0));
                assert(self@.replies =~= old(self)@.replies.push(rv));
            }
        }
    }
}

/// Whether CSI `action` only moves the cursor.
pub open spec fn moves_cursor(action: char) -> bool {
    action == 'A' || action == 'B' || action == 'e' || action == 'C' || action == 'a' || action
        == 'D' || action == 'E' || action == 'F' || action == 'G' || action == '`' || action == 'H'
        || action == 'f' || action == 'I' || action == 'd'
}

fn csi_moves_cursor(action: char) -> (b: bool)
    ensures
        b == moves_cursor(action),
{
    action == 'A' || action == 'B' || action == 'e' || action == 'C' || action == 'a' || action
        == 'D' || action == 'E' || action == 'F' || action == 'G' || action == '`' || action == 'H'
        || action == 'f' || action == 'I' || action == 'd'
}

/// The cursor-motion CSI sequences.
fn csi_motion(screen: &mut Screen, params: &Vec<Vec<u16>>, private: Option<u8>, action: char)
    requires
        moves_cursor(action),
    ensures
        final(screen)@ == csi_screen(old(screen)@, groups_view(params@), private, action),
{
    let ghost s0 = screen@;
    let n = count_param_exec(params);
    if action == 'A' {
        screen.move_cursor(-n, 0);
    } else if action == 'B' || action == 'e' {
        screen.move_cursor(n, 0);
    } else if action == 'C' || action == 'a' {
        screen.move_cursor(0, n);
    } else if action == 'D' {
        screen.move_cursor(0, -n);
    } else if action == 'E' {
        screen.carriage_return();
        screen.move_cursor(n, 0);
    } else if action == 'F' {
        screen.carriage_return();
        screen.move_cursor(-n, 0);
    } else if action == 'G' || action == '`' {
        let col = nth_param_exec(params, 0, 1);
        let (_c, row) = screen.cursor();
        screen.goto(row as i64, col - 1);
    } else if action == 'H' || action == 'f' {
        let row = nth_param_exec(params, 0, 1);
        let col = nth_param_exec(params, 1, 1);
        screen.goto(row - 1, col - 1);
    } else if action == 'I' {
        let mut i: i64 = 0;
        while i < n
            invariant
                0 <= i <= n,
                screen@ == tab_n(s0, i as nat),
            decreases n - i,
        {
            screen.tab();
            i = i + 1;
        }
    } else if action == 'd' {
        let row = nth_param_exec(params, 0, 1);
        let (col, _r) = screen.cursor();
        screen.goto(row - 1, col as i64);
    }
}

/// The editing, scrolling, rendition and mode CSI sequences.
fn csi_edit(screen: &mut Screen, params: &Vec<Vec<u16>>, private: Option<u8>, action: char)
    requires
        !moves_cursor(action),
    ensures
        final(screen)@ == csi_screen(old(screen)@, groups_view(params@), private, action),
{
    let ghost s0 = screen@;
    let ghost ps = groups_view(params@);
    let n = count_param_exec(params);
    if action == 'J' {
        screen.erase_display(nth_param_exec(params, 0, 0));
    } else if action == 'K' {
        screen.erase_line(nth_param_exec(params, 0, 0));
    } else if action == '@' {
        screen.insert_blanks(nth_param_exec(params, 0, 1));
    } else if action == 'P' {
        screen.delete_chars(nth_param_exec(params, 0, 1));
    } else if action == 'r' {
        let top = nth_param_exec(params, 0, 1);
        let bottom = nth_param_exec(params, 1, 0);
        let bottom = if bottom == 0 {
            24000
        } else {
            bottom
        };
        screen.set_scroll_region(top, bottom);
        screen.goto(0, 0);
    } else if action == 'S' {
        screen.scroll_up(n as u16);
    } else if action == 'T' {
        screen.scroll_down(n as u16);
    } else if action == 'm' {
        let flat = flatten_exec(params);
        screen.sgr(flat.as_slice());
    } else if (action == 'h' || action == 'l') && private == Some(0x3fu8) {
        let set = action == 'h';
        let flat = flatten_exec(params);
        let mut i: usize = 0;
        while i < flat.len()
            invariant
                i <= flat@.len(),
                flat@ == flatten_params(ps),
                screen@ == set_modes(s0, flat@.take(i as int), set),
            decreases flat.len() - i,
        {
            screen.set_private_mode(flat[i], set);
            proof {
                assert(flat@.take(i + 1).drop_last() =~= flat@.take(i as int));
            }
            i = i + 1;
        }
        proof {
            assert(flat@.take(i as int) =~= flat@);
        }
    }
}

/// The first value of group `n`, or `default`.
fn nth_param_exec(params: &Vec<Vec<u16>>, n: usize, default: i64) -> (r: i64)
    ensures
        r == nth_param(groups_view(params@), n as int, default as int),
{
    if n < params.len() && params[n].len() > 0 {
        params[n][0] as i64
    } else {
        default
    }
}

/// The motion count: the first value, at least one.
fn count_param_exec(params: &Vec<Vec<u16>>) -> (r: i64)
    ensures
        r == count_param(groups_view(params@)),
        1 <= r <= 65535,
{
    let v = nth_param_exec(params, 0, 1);
    if v < 1 {
        1
    } else {
        v
    }
}

/// All values of all groups, in order.
fn flatten_exec(params: &Vec<Vec<u16>>) -> (r: Vec<i64>)
    ensures
        r@ == flatten_params(groups_view(params@)),
{
    let ghost ps = groups_view(params@);
    let mut out: Vec<i64> = Vec::new();
    let mut i: usize = 0;
    while i < params.len()
        invariant
            i <= params@.len(),
            ps == groups_view(params@),
            out@ == flatten_params(ps.take(i as int)),
        decreases params.len() - i,
    {
        let group = &params[i];
        let ghost before = out@;
        let mut j: usize = 0;
        while j < group.len()
            invariant
                j <= group@.len(),
                out@ =~= before + group@.take(j as int).map_values(|v: u16| v as i64),
            decreases group.len() - j,
        {
            out.push(group[j] as i64);
            j = j + 1;
        }
        proof {
            assert(group@.take(group@.len() as int) =~= group@);
            assert(ps.take(i + 1).drop_last() =~= ps.take(i as int));
            assert(ps.take(i + 1).last() == group@);
        }
        i = i + 1;
    }
    proof {
        assert(ps.take(params@.len() as int) =~= ps);
    }
    out
}

} // verus!
