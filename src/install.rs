//! The progress record of the translation-runtime installer, as the
//! interface shows it.

use vstd::prelude::*;
use crate::text::{chars_of, push_str, string_of};

verus! {

/// How many log lines the record keeps; older ones are dropped first.
pub const MAX_INSTALL_LOGS: usize = 200;

/// The steps of an install.
pub const INSTALL_STEPS: u8 = 4;

pub const READY_LOG: &'static str = "Chinese statement support is ready.";

pub const START_LOG: &'static str = "Starting Chinese statement support setup...";

pub struct TranslationInstallState {
    pub active: bool,
    pub finished: bool,
    pub ready: bool,
    pub step: u8,
    pub total_steps: u8,
    pub phase: String,
    pub error: String,
    pub logs: Vec<String>,
}

/// The last `MAX_INSTALL_LOGS` lines of `logs`.
pub open spec fn capped(logs: Seq<Seq<char>>) -> Seq<Seq<char>> {
    if logs.len() > MAX_INSTALL_LOGS {
        logs.subrange(logs.len() - MAX_INSTALL_LOGS, logs.len() as int)
    } else {
        logs
    }
}

impl TranslationInstallState {
    /// Nothing installed or running.
    pub fn idle() -> (r: Self)
        ensures
            !r.active && !r.finished && !r.ready,
            r.step == 0 && r.total_steps == INSTALL_STEPS,
            r.phase@ == "Idle"@,
            r.error@.len() == 0,
            r.logs@.len() == 0,
    {
        let empty: Vec<char> = Vec::new();
        TranslationInstallState {
            active: false,
            finished: false,
            ready: false,
            step: 0,
            total_steps: INSTALL_STEPS,
            phase: string_of(chars_of("Idle")),
            error: string_of(empty),
            logs: Vec::new(),
        }
    }

    /// The record of an install that has just begun.
    pub fn starting() -> (r: Self)
        ensures
            r.active && !r.finished && !r.ready,
            r.step == 0 && r.total_steps == INSTALL_STEPS,
            r.phase@ == "Preparing install"@,
            r.error@.len() == 0,
            r.logs.deep_view() == seq![START_LOG@],
    {
        let empty: Vec<char> = Vec::new();
        let mut logs: Vec<String> = Vec::new();
        logs.push(string_of(chars_of(START_LOG)));
        assert(logs.deep_view() =~= seq![START_LOG@]);
        TranslationInstallState {
            active: true,
            finished: false,
            ready: false,
            step: 0,
            total_steps: INSTALL_STEPS,
            phase: string_of(chars_of("Preparing install")),
            error: string_of(empty),
            logs,
        }
    }

    fn append_log(&mut self, message: String)
        ensures
            final(self).logs.deep_view() == capped(old(self).logs.deep_view().push(message@)),
            final(self).active == old(self).active,
            final(self).finished == old(self).finished,
            final(self).ready == old(self).ready,
            final(self).step == old(self).step,
            final(self).total_steps == old(self).total_steps,
            final(self).phase == old(self).phase,
            final(self).error == old(self).error,
    {
        let ghost before = self.logs.deep_view().push(message@);
        self.logs.push(message);
        assert(self.logs.deep_view() =~= before);
        if self.logs.len() > MAX_INSTALL_LOGS {
            let drop_count = self.logs.len() - MAX_INSTALL_LOGS;
            let kept = self.logs.split_off(drop_count);
            self.logs = kept;
            assert(self.logs.deep_view() =~= capped(before));
        }
    }

    /// Enters step `step` of `total_steps`, named `phase`: the install is
    /// running again and has no error.
    pub fn set_install_phase(&mut self, step: u8, total_steps: u8, phase: String)
        ensures
            final(self).active && !final(self).finished,
            final(self).ready == old(self).ready,
            final(self).step == step && final(self).total_steps == total_steps,
            final(self).phase@ == phase@,
            final(self).error@.len() == 0,
            final(self).logs@ == old(self).logs@,
    {
        let empty: Vec<char> = Vec::new();
        self.active = true;
        self.finished = false;
        self.step = step;
        self.total_steps = total_steps;
        self.phase = phase;
        self.error = string_of(empty);
    }

    /// Adds a log line; only the last `MAX_INSTALL_LOGS` lines are kept.
    pub fn push_install_log(&mut self, message: String)
        ensures
            final(self).logs.deep_view() == capped(old(self).logs.deep_view().push(message@)),
            final(self).active == old(self).active,
            final(self).finished == old(self).finished,
            final(self).ready == old(self).ready,
            final(self).step == old(self).step,
            final(self).total_steps == old(self).total_steps,
            final(self).phase == old(self).phase,
            final(self).error == old(self).error,
    {
        self.append_log(message);
    }

    /// The install succeeded: ready, at its last step, with a closing log line.
    pub fn finish_install_success(&mut self)
        ensures
            !final(self).active && final(self).finished && final(self).ready,
            final(self).step == old(self).total_steps,
            final(self).total_steps == old(self).total_steps,
            final(self).phase@ == "Ready"@,
            final(self).error@.len() == 0,
            final(self).logs.deep_view() == capped(old(self).logs.deep_view().push(READY_LOG@)),
    {
        let empty: Vec<char> = Vec::new();
        self.active = false;
        self.finished = true;
        self.ready = true;
        self.step = self.total_steps;
        self.phase = string_of(chars_of("Ready"));
        self.error = string_of(empty);
        self.append_log(string_of(chars_of(READY_LOG)));
    }

    /// The install failed with `message`: not ready, with the error logged.
    pub fn finish_install_error(&mut self, message: String)
        ensures
            !final(self).active && final(self).finished && !final(self).ready,
            final(self).step == old(self).step,
            final(self).total_steps == old(self).total_steps,
            final(self).error@ == message@,
            final(self).phase@ == "Install failed"@,
            final(self).logs.deep_view() == capped(old(self).logs.deep_view().push("Error: "@ + message@)),
    {
        let mut line = chars_of("Error: ");
        push_str(&mut line, message.as_str());
        self.active = false;
        self.finished = true;
        self.ready = false;
        self.error = message;
        self.phase = string_of(chars_of("Install failed"));
        self.append_log(string_of(line));
    }
}

/// After a line is added the log holds at most `MAX_INSTALL_LOGS` lines,
/// the line just added is the last one, and a log that had room keeps every line.
pub proof fn lemma_log_capped(logs: Seq<Seq<char>>, line: Seq<char>)
    ensures
        capped(logs.push(line)).len() <= MAX_INSTALL_LOGS,
        capped(logs.push(line)).last() == line,
        logs.len() < MAX_INSTALL_LOGS ==> capped(logs.push(line)) == logs.push(line),
{
}

} // verus!
