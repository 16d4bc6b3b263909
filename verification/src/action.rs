use vstd::prelude::*;

verus! {

/// High-level terminal action produced by parsing PTY output.
#[derive(Debug, Clone, PartialEq)]
#[allow(inconsistent_fields)]
pub enum Action {
    /// Print a visible character at the cursor position.
    Print(char),
    /// Execute a C0/C1 control code.
    Execute(u8),
    /// CSI (Control Sequence Introducer) command.
    Csi { params: Vec<Vec<u16>>, intermediates: Vec<u8>, action: char },
    /// ESC sequence.
    Esc { intermediates: Vec<u8>, action: u8 },
    /// OSC (Operating System Command) — title, colors, etc.
    Osc(Vec<Vec<u8>>),
    /// DCS (Device Control String) — sixel, DECRQSS, etc.
    Dcs { params: Vec<Vec<u16>>, intermediates: Vec<u8>, action: u8 },
}

} // verus!
