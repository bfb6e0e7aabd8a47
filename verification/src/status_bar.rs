//! The one-line status bar at the bottom of stderr: which phase it shows,
//! when it is drawn, hidden or cleared, and the text of the bar.
//!
//! The bar itself only decides; every method returns the output to write,
//! which the caller writes to the terminal and times.
use vstd::prelude::*;
use vstd::utf8::{decode_utf8, encode_utf8, is_char_boundary};
use vstd::string::StringSliceAdditionalSpecFns;

use crate::text::{
    all_digits, all_digits_exec, append_chars, chars_of, decimal, ends_with, is_ascii_digit,
    string_of, u64_to_decimal,
};

verus! {

/// How the status bar delivers progress feedback.
#[derive(Debug, Clone, Copy, PartialEq, Eq, Structural)]
pub enum StatusBarMode {
    /// TTY stderr: an overwritten bar, redrawn in the background.
    Tty,
    /// Non-TTY stderr: a plain `remerge: <phase>` line when the phase
    /// changes.
    LogLine,
    /// Quiet mode: no output at all.
    Silent,
}

/// What the caller writes after a status bar operation.
#[derive(Debug, Clone, PartialEq, Eq)]
pub enum BarOutput {
    /// Nothing.
    Nothing,
    /// Redraw the bar with this phase; `restart_timer` when the phase's
    /// elapsed time starts anew.
    Draw { phase: String, restart_timer: bool },
    /// Erase the bar line.
    Clear,
    /// Print this line on stderr.
    Line(String),
    /// Erase the bar, print the message, and redraw the bar with this phase,
    /// in one write.
    Compose { message: String, phase: String },
}

/// A dynamic one-line status bar rendered on stderr.
#[derive(Debug)]
pub struct StatusBar {
    pub mode: StatusBarMode,
    /// The phase shown; empty before the first phase is set.
    pub phase: String,
    /// The bar is not drawn (for instance while a build streams output).
    pub hidden: bool,
    /// The bar is finished for good.
    pub finished: bool,
}

/// A phase with a heartbeat suffix stripped, for deduplicating log lines:
/// when the phase ends, after its last ` (`, in one or more ASCII digits
/// followed by `s)…` or `s)...`, it is cut before that ` (`.
pub open spec fn base_phase_of(phase: Seq<char>) -> Seq<char> {
    let p = last_paren(phase);
    if p < 0 {
        phase
    } else {
        let tail = phase.skip(p);
        if heartbeat_tail(tail) {
            phase.take(p)
        } else {
            phase
        }
    }
}

/// A tail ` (Ns)…` or ` (Ns)...` with `N` one or more ASCII digits.
pub open spec fn heartbeat_tail(tail: Seq<char>) -> bool {
    ||| (ends_with(tail, "s)\u{2026}"@) && tail.len() > 5 && all_digits(tail.subrange(2, tail.len() - 3)))
    ||| (ends_with(tail, "s)..."@) && tail.len() > 7 && all_digits(tail.subrange(2, tail.len() - 5)))
}

/// Position of the last ` (` in `s`, or -1.
pub open spec fn last_paren(s: Seq<char>) -> int
    decreases s.len(),
{
    if s.len() < 2 {
        -1
    } else if s[s.len() - 2] == ' ' && s[s.len() - 1] == '(' {
        s.len() - 2
    } else {
        last_paren(s.drop_last())
    }
}

proof fn lemma_last_paren(s: Seq<char>, i: int)
    requires
        0 <= i <= s.len(),
    ensures
        last_paren(s.take(i)) < i - 1 || i < 2,
        -1 <= last_paren(s.take(i)),
        i >= 2 && s[i - 2] == ' ' && s[i - 1] == '(' ==> last_paren(s.take(i)) == i - 2,
        i >= 2 && !(s[i - 2] == ' ' && s[i - 1] == '(') ==> last_paren(s.take(i)) == last_paren(
            s.take(i - 1),
        ),
    decreases i,
{
    if i >= 2 {
        assert(s.take(i).drop_last() =~= s.take(i - 1));
        lemma_last_paren(s, i - 1);
    }
}

/// Strips a heartbeat suffix from a phase, as the log-line mode compares
/// phases.
pub fn base_phase(phase: &str) -> (r: String)
    ensures
        r@ == base_phase_of(phase@),
{
    let s = chars_of(phase);
    // rfind(" (")
    let mut i: usize = s.len();
    let mut pos: Option<usize> = None;
    assert(s@.take(i as int) =~= s@);
    while i >= 2
        invariant_except_break
            pos.is_none(),
            last_paren(s@) == last_paren(s@.take(i as int)),
        invariant
            i <= s.len(),
        ensures
            match pos {
                Some(p) => p + 2 <= s.len() && last_paren(s@) == p,
                None => last_paren(s@) == -1,
            },
        decreases i,
    {
        proof {
            lemma_last_paren(s@, i as int);
        }
        if s[i - 2] == ' ' && s[i - 1] == '(' {
            pos = Some(i - 2);
            break;
        }
        i -= 1;
    }
    proof {
        if pos is None {
            lemma_last_paren(s@, i as int);
        }
    }
    match pos {
        Some(p) => {
            let tail = crate::text::sub_chars(s.as_slice(), p, s.len());
            assert(tail@ =~= s@.skip(p as int));
            let ell = chars_of("s)\u{2026}");
            let dots = chars_of("s)...");
            proof {
                reveal_strlit("s)\u{2026}");
                reveal_strlit("s)...");
            }
            let n = tail.len();
            if crate::text::has_suffix(tail.as_slice(), ell.as_slice()) && n > 5 {
                let digits = crate::text::sub_chars(tail.as_slice(), 2, n - 3);
                if all_digits_exec(digits.as_slice()) {
                    let r = crate::text::sub_chars(s.as_slice(), 0, p);
                    assert(r@ =~= s@.take(p as int));
                    return string_of(r.as_slice());
                }
            }
            if crate::text::has_suffix(tail.as_slice(), dots.as_slice()) && n > 7 {
                let digits = crate::text::sub_chars(tail.as_slice(), 2, n - 5);
                if all_digits_exec(digits.as_slice()) {
                    let r = crate::text::sub_chars(s.as_slice(), 0, p);
                    assert(r@ =~= s@.take(p as int));
                    return string_of(r.as_slice());
                }
            }
        },
        None => {},
    }
    string_of(s.as_slice())
}

/// The elapsed-time suffix of the bar: ` [Ns]`, or nothing before the first
/// second.
pub open spec fn elapsed_suffix(secs: u64) -> Seq<char> {
    if secs > 0 {
        " ["@ + decimal(secs as nat) + "s]"@
    } else {
        Seq::empty()
    }
}

/// `a - b`, or 0 when `b` is larger.
pub open spec fn sat_sub(a: int, b: int) -> int {
    if a >= b {
        a - b
    } else {
        0
    }
}

/// Bytes of the phase that fit beside the ` ⋯ ` prefix (5 bytes) and the
/// suffix on a line of `width` columns.
pub open spec fn phase_budget(secs: u64, width: usize) -> int {
    sat_sub(sat_sub(width as int, 5), elapsed_suffix(secs).len() as int)
}

/// Whether the phase is cut to fit: it is longer than the budget, in bytes,
/// and the budget leaves room for more than the ellipsis.
pub open spec fn phase_truncated(phase: Seq<char>, secs: u64, width: usize) -> bool {
    encode_utf8(phase).len() > phase_budget(secs, width) && phase_budget(secs, width) > 1
}

/// The text of the bar: ` ⋯ `, the phase (its first budget-1 bytes and `…`
/// when it does not fit), and the elapsed time.
pub open spec fn rendered(phase: Seq<char>, secs: u64, width: usize) -> Seq<char> {
    " \u{22ef} "@ + (if phase_truncated(phase, secs, width) {
        decode_utf8(encode_utf8(phase).take(phase_budget(secs, width) - 1)) + "\u{2026}"@
    } else {
        phase
    }) + elapsed_suffix(secs)
}

/// Renders the bar for a phase that has run `elapsed_secs` seconds on a
/// terminal `width` columns wide. A phase is cut only at a character
/// boundary.
pub fn render(phase: &str, elapsed_secs: u64, width: usize) -> (r: String)
    requires
        encode_utf8(phase@).len() <= usize::MAX,
        phase_truncated(phase@, elapsed_secs, width) ==> is_char_boundary(
            encode_utf8(phase@),
            phase_budget(elapsed_secs, width) - 1,
        ),
    ensures
        r@ == rendered(phase@, elapsed_secs, width),
{
    let mut suffix: Vec<char> = Vec::new();
    if elapsed_secs > 0 {
        append_chars(&mut suffix, chars_of(" [").as_slice());
        append_chars(&mut suffix, u64_to_decimal(elapsed_secs).as_slice());
        append_chars(&mut suffix, chars_of("s]").as_slice());
    }
    assert(suffix@ =~= elapsed_suffix(elapsed_secs));
    let after_prefix: usize = if width >= 5 {
        width - 5
    } else {
        0
    };
    let budget: usize = if after_prefix >= suffix.len() {
        after_prefix - suffix.len()
    } else {
        0
    };
    assert(budget == phase_budget(elapsed_secs, width));
    let mut out = chars_of(" \u{22ef} ");
    let ghost prefix = out@;
    assert(phase.spec_bytes() == encode_utf8(phase@));
    if phase.len() > budget && budget > 1 {
        assert(phase_truncated(phase@, elapsed_secs, width));
        let (head, _) = phase.split_at(budget - 1);
        proof {
            vstd::utf8::encode_utf8_decode_utf8(head@);
            assert(head.spec_bytes() == encode_utf8(head@));
            assert(head.spec_bytes() =~= encode_utf8(phase@).take(budget - 1));
        }
        append_chars(&mut out, chars_of(head).as_slice());
        append_chars(&mut out, chars_of("\u{2026}").as_slice());
        assert(out@ =~= prefix + (decode_utf8(encode_utf8(phase@).take(budget - 1)) + "\u{2026}"@));
    } else {
        assert(!phase_truncated(phase@, elapsed_secs, width));
        append_chars(&mut out, chars_of(phase).as_slice());
    }
    append_chars(&mut out, suffix.as_slice());
    assert(out@ =~= rendered(phase@, elapsed_secs, width));
    string_of(out.as_slice())
}

impl StatusBar {
    /// A hidden bar with no phase. Quiet mode is silent; otherwise the bar
    /// is a redrawn line on a terminal and plain log lines elsewhere.
    pub fn init(quiet: bool, stderr_is_terminal: bool) -> (r: Self)
        ensures
            r.mode == (if quiet {
                StatusBarMode::Silent
            } else if stderr_is_terminal {
                StatusBarMode::Tty
            } else {
                StatusBarMode::LogLine
            }),
            r.phase@.len() == 0,
            r.hidden,
            !r.finished,
    {
        let mode = if quiet {
            StatusBarMode::Silent
        } else if stderr_is_terminal {
            StatusBarMode::Tty
        } else {
            StatusBarMode::LogLine
        };
        StatusBar { mode, phase: String::new(), hidden: true, finished: false }
    }

    /// Sets the current phase and makes the bar visible.
    /// - `Tty`: the bar is redrawn at once, its timer restarted;
    /// - `LogLine`: `remerge: <phase>` is printed when the base phase
    ///   changes;
    /// - `Silent`: nothing changes.
    pub fn set_phase(&mut self, phase: String) -> (r: BarOutput)
        ensures
            old(self).mode == StatusBarMode::Silent ==> *final(self) == *old(self) && r
                == BarOutput::Nothing,
            old(self).mode == StatusBarMode::LogLine ==> {
                &&& final(self).mode == old(self).mode
                &&& final(self).phase == phase
                &&& final(self).hidden == old(self).hidden
                &&& final(self).finished == old(self).finished
                &&& if base_phase_of(phase@) != base_phase_of(old(self).phase@) {
                    r matches BarOutput::Line(l) && l@ == "remerge: "@ + base_phase_of(phase@)
                } else {
                    r == BarOutput::Nothing
                }
            },
            old(self).mode == StatusBarMode::Tty ==> {
                &&& final(self).mode == old(self).mode
                &&& final(self).phase == phase
                &&& !final(self).hidden
                &&& final(self).finished == old(self).finished
                &&& r matches BarOutput::Draw { phase: p, restart_timer } && p == phase
                    && restart_timer
            },
    {
        match self.mode {
            StatusBarMode::Silent => BarOutput::Nothing,
            StatusBarMode::LogLine => {
                let new_base = base_phase(phase.as_str());
                let prev_base = base_phase(self.phase.as_str());
                self.phase = phase;
                if !crate::text::eq_chars(
                    chars_of(new_base.as_str()).as_slice(),
                    chars_of(prev_base.as_str()).as_slice(),
                ) {
                    let mut line = chars_of("remerge: ");
                    append_chars(&mut line, chars_of(new_base.as_str()).as_slice());
                    BarOutput::Line(string_of(line.as_slice()))
                } else {
                    BarOutput::Nothing
                }
            },
            StatusBarMode::Tty => {
                let shown = phase.clone();
                self.phase = phase;
                self.hidden = false;
                BarOutput::Draw { phase: shown, restart_timer: true }
            },
        }
    }

    /// Hides the bar without discarding the phase; the line is erased when
    /// the bar was visible. Only a terminal bar hides.
    pub fn hide_bar(&mut self) -> (r: BarOutput)
        ensures
            old(self).mode != StatusBarMode::Tty ==> *final(self) == *old(self) && r
                == BarOutput::Nothing,
            old(self).mode == StatusBarMode::Tty ==> *final(self) == (StatusBar {
                hidden: true,
                ..*old(self)
            }) && r == (if old(self).hidden {
                BarOutput::Nothing
            } else {
                BarOutput::Clear
            }),
    {
        if self.mode != StatusBarMode::Tty {
            return BarOutput::Nothing;
        }
        let was_hidden = self.hidden;
        self.hidden = true;
        if !was_hidden {
            BarOutput::Clear
        } else {
            BarOutput::Nothing
        }
    }

    /// Shows the bar again with the current phase, drawn at once when
    /// there is a phase. Only a terminal bar shows, and a finished bar stays
    /// finished: it is not shown again.
    pub fn show(&mut self) -> (r: BarOutput)
        ensures
            old(self).mode != StatusBarMode::Tty || old(self).finished ==> *final(self) == *old(self)
                && r == BarOutput::Nothing,
            old(self).mode == StatusBarMode::Tty && !old(self).finished ==> *final(self) == (StatusBar {
                hidden: false,
                ..*old(self)
            }) && (if old(self).phase@.len() > 0 {
                r matches BarOutput::Draw { phase, restart_timer } && phase == old(self).phase
                    && !restart_timer
            } else {
                r == BarOutput::Nothing
            }),
    {
        if self.mode != StatusBarMode::Tty || self.finished {
            return BarOutput::Nothing;
        }
        self.hidden = false;
        if self.phase.as_str().is_empty() {
            BarOutput::Nothing
        } else {
            BarOutput::Draw { phase: self.phase.clone(), restart_timer: false }
        }
    }

    /// Marks the bar finished for good and erases it. Only a terminal bar
    /// finishes.
    pub fn finish(&mut self) -> (r: BarOutput)
        ensures
            old(self).mode != StatusBarMode::Tty ==> *final(self) == *old(self) && r
                == BarOutput::Nothing,
            old(self).mode == StatusBarMode::Tty ==> *final(self) == (StatusBar {
                hidden: true,
                finished: true,
                ..*old(self)
            }) && r == BarOutput::Clear,
    {
        if self.mode != StatusBarMode::Tty {
            return BarOutput::Nothing;
        }
        self.finished = true;
        self.hidden = true;
        BarOutput::Clear
    }

    /// How to print a message while the bar may be visible: composed with a
    /// redraw on a visible, unfinished terminal bar with a phase, a plain
    /// line otherwise.
    pub fn println(&self, msg: &str) -> (r: BarOutput)
        ensures
            self.mode == StatusBarMode::Tty && !self.hidden && !self.finished && self.phase@.len() > 0
                ==> (r matches BarOutput::Compose { message, phase } && message@ == msg@ && phase
                == self.phase),
            !(self.mode == StatusBarMode::Tty && !self.hidden && !self.finished && self.phase@.len()
                > 0) ==> (r matches BarOutput::Line(l) && l@ == msg@),
    {
        let m = string_of(chars_of(msg).as_slice());
        if self.mode == StatusBarMode::Tty && !self.hidden && !self.finished && !self.phase.as_str().is_empty() {
            BarOutput::Compose { message: m, phase: self.phase.clone() }
        } else {
            BarOutput::Line(m)
        }
    }

    /// What the background redraw does on a tick: stop once finished
    /// (`None`), else redraw a visible bar that has a phase.
    pub fn tick(&self) -> (r: Option<BarOutput>)
        ensures
            self.finished ==> r.is_none(),
            !self.finished ==> (r matches Some(o) && (if !self.hidden && self.phase@.len() > 0 {
                o matches BarOutput::Draw { phase, restart_timer } && phase == self.phase
                    && !restart_timer
            } else {
                o == BarOutput::Nothing
            })),
    {
        if self.finished {
            return None;
        }
        if !self.hidden && !self.phase.as_str().is_empty() {
            Some(BarOutput::Draw { phase: self.phase.clone(), restart_timer: false })
        } else {
            Some(BarOutput::Nothing)
        }
    }
}

} // verus!
