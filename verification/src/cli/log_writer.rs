//! Log lines beside a progress bar: a line is gathered whole and written once,
//! around the bar that is active when it starts.

use vstd::prelude::*;

verus! {

/// Ends the registration of the active bar.
#[derive(Debug)]
pub struct ProgressGuard;

/// Makes a writer for each log line.
#[derive(Debug, Clone, Copy)]
pub struct ProgressAwareStderr;

/// The bar that log lines yield to, by its number; none between runs. A later
/// registration takes the place of an earlier one.
#[derive(Debug)]
pub struct ActiveBar {
    pub current: Option<u64>,
}

impl ActiveBar {
    /// No bar is active.
    pub fn new() -> (slot: Self)
        ensures
            slot.current is None,
    {
        ActiveBar { current: None }
    }

    /// Makes `bar` the active one, until its guard ends.
    pub fn register(&mut self, bar: u64) -> (guard: ProgressGuard)
        ensures
            final(self).current == Some(bar),
    {
        self.current = Some(bar);
        ProgressGuard
    }

    /// Ends a registration.
    pub fn release(&mut self, guard: ProgressGuard)
        ensures
            final(self).current is None,
    {
        let _ended: ProgressGuard = guard;
        self.current = None;
    }
}

impl ProgressAwareStderr {
    /// The writer of one log line, with the bar that is active now.
    pub fn make_writer(&self, active: &ActiveBar) -> (line: StderrLine)
        ensures
            line.bar == active.current,
            line.buffered@ == Seq::<u8>::empty(),
    {
        StderrLine { bar: active.current, buffered: Vec::new() }
    }
}

/// One log line while it is gathered.
#[derive(Debug)]
pub struct StderrLine {
    pub bar: Option<u64>,
    pub buffered: Vec<u8>,
}

impl StderrLine {
    /// Gathers a piece of the line; all of it is taken.
    pub fn write(&mut self, buf: &[u8]) -> (taken: usize)
        ensures
            taken == buf@.len(),
            final(self).buffered@ == old(self).buffered@ + buf@,
            final(self).bar == old(self).bar,
    {
        let ghost before = self.buffered@;
        proof {
            assert(before + buf@.take(0) =~= before);
        }
        for i in 0..buf.len()
            invariant
                self.buffered@ == before + buf@.take(i as int),
                self.bar == old(self).bar,
        {
            self.buffered.push(buf[i]);
            proof {
                assert(before + buf@.take(i as int + 1) =~= (before + buf@.take(i as int)).push(
                    buf@[i as int],
                ));
            }
        }
        proof {
            assert(buf@.take(buf@.len() as int) =~= buf@);
        }
        buf.len()
    }

    /// The bytes to write now, if any; they are not handed out again.
    pub fn emit(&mut self) -> (bytes: Option<Vec<u8>>)
        ensures
            final(self).buffered@ == Seq::<u8>::empty(),
            final(self).bar == old(self).bar,
            match bytes {
                Some(b) => b@ == old(self).buffered@ && b@.len() > 0,
                None => old(self).buffered@.len() == 0,
            },
    {
        if self.buffered.len() == 0 {
            proof {
                assert(self.buffered@ =~= Seq::<u8>::empty());
            }
            return None;
        }
        let mut bytes: Vec<u8> = Vec::new();
        bytes.append(&mut self.buffered);
        proof {
            assert(bytes@ =~= old(self).buffered@);
        }
        Some(bytes)
    }
}

} // verus!
