//! The VT parser frontend: the `vte` state machine turns bytes into events,
//! and `TermPerformer` applies them to a screen.
use vstd::prelude::*;

use crate::action::{actions_view, ActionView, VtAction};
use crate::performer::{apply_action, apply_actions, groups_view, TermPerformer};
use vstd::slice::slice_to_vec;

verus! {

#[verifier::external_type_specification]
#[verifier::external_body]
pub struct ExVteParser<const OSC_RAW_BUF_SIZE: usize>(vte::Parser<OSC_RAW_BUF_SIZE>);

#[verifier::external_type_specification]
#[verifier::external_body]
pub struct ExVteParams(vte::Params);

/// The parameter groups a `vte::Params` holds, in order; each group is a
/// parameter followed by its colon-separated sub-parameters.
pub uninterp spec fn params_groups(p: vte::Params) -> Seq<Seq<u16>>;

/// `vte::Params::iter`: every group, copied out in order.
#[verifier::external_body]
fn params_to_groups(params: &vte::Params) -> (groups: Vec<Vec<u16>>)
    ensures
        groups_view(groups@) == params_groups(*params),
{
    params.iter().map(|group| group.to_vec()).collect()
}

/// The bytes a `vte::Parser` has been fed since it was made. The parser is a
/// deterministic state machine, so what it does next depends on these alone.
pub uninterp spec fn fed_bytes(p: vte::Parser) -> Seq<u8>;

/// The `print`, `execute`, `csi_dispatch` and `esc_dispatch` calls, in order,
/// that a `vte::Parser` fed `history` since it was made makes when fed `byte`.
pub uninterp spec fn vte_actions(history: Seq<u8>, byte: u8) -> Seq<ActionView>;

/// `vte::Parser::new`: a parser that has been fed nothing.
#[verifier::external_body]
fn new_vte_parser() -> (p: vte::Parser)
    ensures
        fed_bytes(p) == Seq::<u8>::empty(),
{
    vte::Parser::new()
}

/// `vte::Parser::advance`: feed one byte. The calls the parser makes on its
/// performer are recorded and handed back in order.
#[verifier::external_body]
fn vte_advance(parser: &mut vte::Parser, byte: u8) -> (actions: Vec<VtAction>)
    ensures
        fed_bytes(*final(parser)) == fed_bytes(*old(parser)).push(byte),
        actions_view(actions@) == vte_actions(fed_bytes(*old(parser)), byte),
{
    let mut log = ActionLog { actions: Vec::new() };
    parser.advance(&mut log, byte);
    log.actions
}

/// The events of feeding `bytes`, one after another, to a parser that has
/// been fed `history`.
pub open spec fn stream_actions(history: Seq<u8>, bytes: Seq<u8>) -> Seq<ActionView>
    decreases bytes.len(),
{
    if bytes.len() == 0 {
        Seq::empty()
    } else {
        stream_actions(history, bytes.drop_last()) + vte_actions(
            history + bytes.drop_last(),
            bytes.last(),
        )
    }
}

/// Records the calls a parser makes as [`VtAction`]s.
struct ActionLog {
    actions: Vec<VtAction>,
}

impl ActionLog {
    /// The calls recorded so far, oldest first.
    pub closed spec fn logged(&self) -> Seq<VtAction> {
        self.actions@
    }
}

impl vte::Perform for ActionLog {
    fn print(&mut self, c: char)
        ensures
            final(self).logged() == old(self).logged().push(VtAction::Print(c)),
    {
        self.actions.push(VtAction::Print(c));
    }

    fn execute(&mut self, byte: u8)
        ensures
            final(self).logged() == old(self).logged().push(VtAction::Execute(byte)),
    {
        self.actions.push(VtAction::Execute(byte));
    }

    fn csi_dispatch(&mut self, params: &vte::Params, intermediates: &[u8], ignore: bool, action: char)
        ensures
            final(self).logged().len() == old(self).logged().len() + 1,
            final(self).logged().drop_last() == old(self).logged(),
            final(self).logged().last()@ == (ActionView::Csi {
                params: params_groups(*params),
                intermediates: intermediates@,
                ignore,
                action,
            }),
    {
        let params = params_to_groups(params);
        let intermediates = slice_to_vec(intermediates);
        self.actions.push(VtAction::Csi { params, intermediates, ignore, action });
    }

    fn esc_dispatch(&mut self, intermediates: &[u8], ignore: bool, byte: u8)
        ensures
            final(self).logged().len() == old(self).logged().len() + 1,
            final(self).logged().drop_last() == old(self).logged(),
            final(self).logged().last()@ == (ActionView::Esc {
                intermediates: intermediates@,
                ignore,
                byte,
            }),
    {
        let intermediates = slice_to_vec(intermediates);
        self.actions.push(VtAction::Esc { intermediates, ignore, byte });
    }
}

/// Configuration for the VT parser frontend.
#[derive(Debug, Clone, Copy, PartialEq, Eq, Structural)]
pub struct ParserConfig {
    /// Report mouse events (xterm mouse protocol 1000/1002/1006).
    pub mouse_protocol: bool,
    /// Enable bracketed paste mode handling (2004).
    pub bracketed_paste: bool,
}

impl Default for ParserConfig {
    fn default() -> (c: Self)
        ensures
            c == (ParserConfig { mouse_protocol: true, bracketed_paste: true }),
    {
        ParserConfig { mouse_protocol: true, bracketed_paste: true }
    }
}

/// Thin facade over `vte::Parser`, so that callers need not know which
/// parsing engine is underneath.
pub struct VtParser {
    inner: vte::Parser,
    config: ParserConfig,
}

impl VtParser {
    pub closed spec fn config_view(&self) -> ParserConfig {
        self.config
    }

    /// The bytes fed so far.
    pub closed spec fn fed(&self) -> Seq<u8> {
        fed_bytes(self.inner)
    }

    pub fn new(config: ParserConfig) -> (p: Self)
        ensures
            p.config_view() == config,
            p.fed() == Seq::<u8>::empty(),
    {
        VtParser { inner: new_vte_parser(), config }
    }

    /// The configuration this parser was made with.
    pub fn config(&self) -> (c: ParserConfig)
        ensures
            c == self.config_view(),
    {
        self.config
    }

    /// Feed raw PTY bytes into the parser, in order, and return the events
    /// they complete.
    pub fn actions(&mut self, bytes: &[u8]) -> (out: Vec<VtAction>)
        ensures
            final(self).config_view() == old(self).config_view(),
            final(self).fed() == old(self).fed() + bytes@,
            actions_view(out@) == stream_actions(old(self).fed(), bytes@),
    {
        let mut out: Vec<VtAction> = Vec::new();
        let mut i: usize = 0;
        while i < bytes.len()
            invariant
                i <= bytes@.len(),
                self.config_view() == old(self).config_view(),
                self.fed() == old(self).fed() + bytes@.take(i as int),
                actions_view(out@) == stream_actions(old(self).fed(), bytes@.take(i as int)),
            decreases bytes.len() - i,
        {
            let ghost before = out@;
            let mut step = vte_advance(&mut self.inner, bytes[i]);
            let ghost stepv = step@;
            out.append(&mut step);
            proof {
                let t = bytes@.take(i + 1);
                assert(t.drop_last() =~= bytes@.take(i as int));
                assert(t.last() == bytes@[i as int]);
                assert(actions_view(out@) =~= actions_view(before) + actions_view(stepv));
            }
            i = i + 1;
        }
        proof {
            assert(bytes@.take(i as int) =~= bytes@);
        }
        out
    }

    /// Feed raw PTY bytes into the parser, in order; events are dispatched to
    /// `handler`.
    pub fn advance(&mut self, bytes: &[u8], handler: &mut TermPerformer)
        ensures
            final(self).config_view() == old(self).config_view(),
            final(self).fed() == old(self).fed() + bytes@,
            final(handler)@ == apply_actions(old(handler)@, stream_actions(old(self).fed(), bytes@)),
    {
        let actions = self.actions(bytes);
        let mut j: usize = 0;
        while j < actions.len()
            invariant
                j <= actions@.len(),
                handler@ == apply_actions(old(handler)@, actions_view(actions@).take(j as int)),
            decreases actions.len() - j,
        {
            handler.perform(&actions[j]);
            proof {
                let t = actions_view(actions@).take(j + 1);
                assert(t.drop_last() =~= actions_view(actions@).take(j as int));
            }
            j = j + 1;
        }
        proof {
            assert(actions_view(actions@).take(j as int) =~= actions_view(actions@));
        }
    }
}

impl vte::Perform for TermPerformer {
    fn print(&mut self, c: char)
        ensures
            final(self)@ == apply_action(old(self)@, ActionView::Print(c)),
    {
        self.print_char(c);
    }

    fn execute(&mut self, byte: u8)
        ensures
            final(self)@ == apply_action(old(self)@, ActionView::Execute(byte)),
    {
        self.execute_byte(byte);
    }

    fn csi_dispatch(&mut self, params: &vte::Params, intermediates: &[u8], ignore: bool, action: char)
        ensures
            final(self)@ == apply_action(
                old(self)@,
                ActionView::Csi {
                    params: params_groups(*params),
                    intermediates: intermediates@,
                    ignore,
                    action,
                },
            ),
    {
        let groups = params_to_groups(params);
        self.handle_csi(&groups, intermediates, action);
    }

    fn esc_dispatch(&mut self, intermediates: &[u8], ignore: bool, byte: u8)
        ensures
            final(self)@ == apply_action(
                old(self)@,
                ActionView::Esc { intermediates: intermediates@, ignore, byte },
            ),
    {
        self.handle_esc(intermediates, byte);
    }
}

} // verus!
