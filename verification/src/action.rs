//! The calls a VT parser makes on its performer, as plain values.
use vstd::prelude::*;

verus! {

/// One parser event: a printable char, a C0 control, a CSI sequence or an
/// escape sequence.
#[derive(Debug, Clone, PartialEq, Eq)]
pub enum VtAction {
    Print(char),
    Execute(u8),
    Csi { params: Vec<Vec<u16>>, intermediates: Vec<u8>, ignore: bool, action: char },
    Esc { intermediates: Vec<u8>, ignore: bool, byte: u8 },
}

/// A parser event with its byte strings and parameter groups as sequences.
pub enum ActionView {
    Print(char),
    Execute(u8),
    Csi { params: Seq<Seq<u16>>, intermediates: Seq<u8>, ignore: bool, action: char },
    Esc { intermediates: Seq<u8>, ignore: bool, byte: u8 },
}

impl View for VtAction {
    type V = ActionView;

    open spec fn view(&self) -> ActionView {
        match self {
            VtAction::Print(c) => ActionView::Print(*c),
            VtAction::Execute(b) => ActionView::Execute(*b),
            VtAction::Csi { params, intermediates, ignore, action } => ActionView::Csi {
                params: params@.map_values(|g: Vec<u16>| g@),
                intermediates: intermediates@,
                ignore: *ignore,
                action: *action,
            },
            VtAction::Esc { intermediates, ignore, byte } => ActionView::Esc {
                intermediates: intermediates@,
                ignore: *ignore,
                byte: *byte,
            },
        }
    }
}

/// A list of events as views.
pub open spec fn actions_view(actions: Seq<VtAction>) -> Seq<ActionView> {
    actions.map_values(|a: VtAction| a@)
}

} // verus!
