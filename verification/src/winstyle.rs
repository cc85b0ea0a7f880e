//! Start-up registration and window style decisions that the platform layer
//! carries out: the command registered to run at sign-in, and the extended
//! window style that keeps a hidden window out of the taskbar.
use vstd::prelude::*;
use vstd::string::*;
use crate::text::push_str;

verus! {

broadcast use vstd::string::group_string_axioms;

/// The name of the value under the `Run` key.
pub fn app_value_name() -> (r: &'static str)
    ensures
        r@ == "ImmichAutoUploader"@,
{
    "ImmichAutoUploader"
}

/// The registry key, under the current user, whose values run at sign-in.
pub fn run_key() -> (r: &'static str)
    ensures
        r@ == "Software\\Microsoft\\Windows\\CurrentVersion\\Run"@,
{
    "Software\\Microsoft\\Windows\\CurrentVersion\\Run"
}

/// The command stored to run the executable at `exe` at sign-in: its path in
/// double quotes.
pub fn run_value(exe: &str) -> (r: String)
    ensures
        r@ == "\""@ + exe@ + "\""@,
{
    let mut r = String::from_str("\"");
    push_str(&mut r, exe);
    push_str(&mut r, "\"");
    r
}

/// The extended style `cur` with the tool-window bit `tool` set and the
/// app-window bit `app` cleared when the window is to stay out of the
/// taskbar, or the other way round; and whether it differs from `cur`.
pub fn taskbar_style(cur: isize, tool: isize, app: isize, skip: bool) -> (r: (isize, bool))
    ensures
        r.0 == if skip {
            (cur | tool) & !app
        } else {
            (cur & !tool) | app
        },
        r.1 == (r.0 != cur),
{
    let new_style = if skip {
        (cur | tool) & !app
    } else {
        (cur & !tool) | app
    };
    (new_style, new_style != cur)
}

/// With distinct single bits for the two styles, hiding from the taskbar
/// leaves the tool-window bit set and the app-window bit clear, and showing
/// does the reverse; all other bits stay as they were.
pub proof fn lemma_taskbar_style_bits(cur: isize, skip: bool)
    ensures
        ({
            let s = if skip {
                (cur | 0x80isize) & !0x40000isize
            } else {
                (cur & !0x80isize) | 0x40000isize
            };
            &&& (s & 0x80isize != 0) == skip
            &&& (s & 0x40000isize != 0) == !skip
            &&& s & !0x40080isize == cur & !0x40080isize
        }),
{
    if skip {
        assert(((cur | 0x80isize) & !0x40000isize) & 0x80isize != 0) by (bit_vector);
        assert(((cur | 0x80isize) & !0x40000isize) & 0x40000isize == 0) by (bit_vector);
        assert(((cur | 0x80isize) & !0x40000isize) & !0x40080isize == cur & !0x40080isize)
            by (bit_vector);
    } else {
        assert(((cur & !0x80isize) | 0x40000isize) & 0x80isize == 0) by (bit_vector);
        assert(((cur & !0x80isize) | 0x40000isize) & 0x40000isize != 0) by (bit_vector);
        assert(((cur & !0x80isize) | 0x40000isize) & !0x40080isize == cur & !0x40080isize)
            by (bit_vector);
    }
}

} // verus!
