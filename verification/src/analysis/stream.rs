//! Line-by-line post-processing of streamed command output.

use vstd::prelude::*;
use crate::analysis::utils::{
    after_frame, any_matches, is_border, opt_text, replace_chain_lenient, short_circuit, short_circuit_ok,
    short_circuits_usable, truncated, without_ansi, OutputPostProcessor,
};
use crate::text::{push_char, trim};

verus! {

/// The result of running a command with its output streamed.
#[derive(Debug, Clone)]
pub struct StreamResult {
    /// Exit code of the process.
    pub exit_code: i32,
    /// Everything the process wrote to stdout (kept whenever the output is
    /// streamed through a filter).
    pub raw_stdout: Option<String>,
    /// Everything the process wrote to stderr (kept likewise).
    pub raw_stderr: Option<String>,
    /// The lines that passed the filter, joined with `\n`.
    pub filtered: String,
}

/// What the per-line stages make of one line: escape codes, replacements,
/// frames, noise, keep and length, or `None` when the line is dropped.
pub open spec fn line_through(p: OutputPostProcessor, line: Seq<char>) -> Option<Seq<char>> {
    let l1 = if p.strip_ansi { without_ansi(line) } else { line };
    let l2 = replace_chain_lenient(l1, p.replace_patterns@);
    let l3 = if !p.strip_tui_frames {
        Some(l2)
    } else if is_border(trim(l2)) {
        None
    } else {
        let c = match after_frame(l2) { Some(c) => c, None => l2 };
        if trim(c).len() == 0 { None } else { Some(c) }
    };
    match l3 {
        None => None,
        Some(l) => if any_matches(p.noise_patterns@, trim(l)) {
            None
        } else if !(p.keep_patterns@.len() == 0 || any_matches(p.keep_patterns@, l)) {
            None
        } else {
            Some(match p.max_line_length {
                Some(m) => truncated(l, m as nat),
                None => l,
            })
        },
    }
}

/// Adapts an `OutputPostProcessor` to line-by-line streaming: each line
/// goes through the per-line stages as it arrives, and the accumulated text
/// serves the batch stages (short-circuit, on-empty) at the end.
#[derive(Debug, Clone)]
pub struct PostProcessLineFilter {
    processor: OutputPostProcessor,
    line_count: usize,
    accumulated: String,
    capped: bool,
}

impl PostProcessLineFilter {
    pub closed spec fn processor(&self) -> OutputPostProcessor {
        self.processor
    }

    /// Number of lines emitted so far.
    pub closed spec fn line_count(&self) -> nat {
        self.line_count as nat
    }

    /// The emitted lines, joined with `\n`.
    pub closed spec fn accumulated(&self) -> Seq<char> {
        self.accumulated@
    }

    /// Whether the line limit has been hit (every later line is dropped).
    pub closed spec fn capped(&self) -> bool {
        self.capped
    }

    /// A filter over the given processor, nothing seen yet.
    pub fn new(processor: OutputPostProcessor) -> (r: PostProcessLineFilter)
        ensures
            r.processor() == processor,
            r.line_count() == 0,
            r.accumulated() == Seq::<char>::empty(),
            !r.capped(),
    {
        PostProcessLineFilter { processor, line_count: 0, accumulated: String::new(), capped: false }
    }

    /// Feeds one line: `None` drops it, `Some` gives the line to emit. Once
    /// the line limit is reached the filter caps and drops every line.
    pub fn feed_line(&mut self, line: &str) -> (r: Option<String>)
        requires
            old(self).line_count() < usize::MAX,
        ensures
            final(self).processor() == old(self).processor(),
            old(self).capped() ==> r is None && *final(self) == *old(self),
            !old(self).capped() ==> match line_through(old(self).processor(), line@) {
                None => r is None && *final(self) == *old(self),
                Some(l) => {
                    let full = match old(self).processor().max_lines {
                        Some(m) => old(self).line_count() >= m,
                        None => false,
                    };
                    if full {
                        &&& r is None
                        &&& final(self).capped()
                        &&& final(self).line_count() == old(self).line_count()
                        &&& final(self).accumulated() == old(self).accumulated()
                    } else {
                        &&& opt_text(r) == Some(l)
                        &&& !final(self).capped()
                        &&& final(self).line_count() == old(self).line_count() + 1
                        &&& final(self).accumulated() == if old(self).accumulated().len() == 0 {
                            l
                        } else {
                            old(self).accumulated() + "\n"@ + l
                        }
                    }
                },
            },
    {
        if self.capped {
            return None;
        }
        let l1 = self.processor.process_line_ansi(line);
        let l2 = self.processor.process_line_replace(l1.as_str());
        let l3 = match self.processor.process_line_tui(l2.as_str()) {
            Some(l) => l,
            None => {
                return None;
            },
        };
        if self.processor.is_noise_line(l3.as_str()) {
            return None;
        }
        if !self.processor.is_keep_line(l3.as_str()) {
            return None;
        }
        let l4 = self.processor.process_line_truncate(l3.as_str());
        match self.processor.max_lines {
            Some(m) => {
                if self.line_count >= m {
                    self.capped = true;
                    return None;
                }
            },
            None => {},
        }
        self.line_count = self.line_count + 1;
        if self.accumulated.as_str().unicode_len() > 0 {
            push_char(&mut self.accumulated, '\n');
        }
        self.accumulated.append(l4.as_str());
        proof { reveal_strlit("\n"); }
        assert(self.accumulated@ =~= (if old(self).accumulated@.len() == 0 { l4@ } else { old(self).accumulated@ + "\n"@ + l4@ }));
        Some(l4)
    }

    /// The lines to append once all lines are fed: the message of the first
    /// short-circuit rule that fires on the emitted text, else the on-empty
    /// message when nothing was emitted, else none.
    pub fn on_complete(&mut self) -> (r: Vec<String>)
        requires
            short_circuit_ok(old(self).processor().short_circuits@, old(self).accumulated()),
        ensures
            *final(self) == *old(self),
            r@.len() <= 1,
            match short_circuit(old(self).processor().short_circuits@, old(self).accumulated()) {
                Some(m) => r@.len() == 1 && r@[0]@ == m,
                None => if old(self).line_count() == 0 && old(self).processor().on_empty_message is Some {
                    r@.len() == 1 && r@[0]@ == old(self).processor().on_empty_message->0@
                } else {
                    r@.len() == 0
                },
            },
    {
        let mut out: Vec<String> = Vec::new();
        match self.processor.check_short_circuit(self.accumulated.as_str()) {
            Some(m) => {
                out.push(m);
                return out;
            },
            None => {},
        }
        if self.line_count == 0 {
            match &self.processor.on_empty_message {
                Some(m) => {
                    out.push(m.clone());
                },
                None => {},
            }
        }
        out
    }

    /// Whether `on_complete` can run: trying the short-circuit rules on the
    /// emitted text reaches no pattern that fails to compile.
    pub fn can_complete(&self) -> (r: bool)
        ensures
            r == short_circuit_ok(self.processor().short_circuits@, self.accumulated()),
    {
        short_circuits_usable(&self.processor.short_circuits, self.accumulated.as_str())
    }

    /// `on_complete` when it can run, `None` when a short-circuit pattern
    /// that would be tried does not compile.
    pub fn try_complete(&mut self) -> (r: Option<Vec<String>>)
        ensures
            *final(self) == *old(self),
            r is Some <==> short_circuit_ok(old(self).processor().short_circuits@, old(self).accumulated()),
            r is Some ==> match short_circuit(old(self).processor().short_circuits@, old(self).accumulated()) {
                Some(m) => r->0@.len() == 1 && r->0@[0]@ == m,
                None => if old(self).line_count() == 0 && old(self).processor().on_empty_message is Some {
                    r->0@.len() == 1 && r->0@[0]@ == old(self).processor().on_empty_message->0@
                } else {
                    r->0@.len() == 0
                },
            },
    {
        if self.can_complete() {
            Some(self.on_complete())
        } else {
            None
        }
    }
}

} // verus!
