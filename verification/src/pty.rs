//! The dashboard's record of one execution in a pseudo-terminal.
//!
//! The subprocess and the terminal emulator that reads its output live with
//! the host glue. What the dashboard decides on is kept here: the size of the
//! terminal, the latest capture of the emulated screen, and the exit status,
//! which is written once.

use vstd::prelude::*;

verus! {

/// A capture of the emulated screen: the size of its grid, the number of
/// lines that have scrolled off it, and the whole scroll history followed by
/// the viewport, with the styling escape sequences applied again.
#[derive(Clone, Debug, PartialEq, Eq)]
pub struct Screen {
    rows: u16,
    cols: u16,
    scrollback_len: usize,
    contents: Vec<u8>,
}

impl Screen {
    /// The number of rows of the grid.
    pub closed spec fn spec_rows(&self) -> u16 {
        self.rows
    }

    /// The number of columns of the grid.
    pub closed spec fn spec_cols(&self) -> u16 {
        self.cols
    }

    /// The number of lines that have scrolled off the grid.
    pub closed spec fn spec_scrollback_len(&self) -> usize {
        self.scrollback_len
    }

    /// The captured bytes: scroll history, then viewport.
    pub closed spec fn contents(&self) -> Seq<u8> {
        self.contents@
    }

    /// The size of the grid as (rows, columns).
    pub fn size(&self) -> (r: (u16, u16))
        ensures
            r == (self.spec_rows(), self.spec_cols()),
    {
        (self.rows, self.cols)
    }

    /// The number of lines that have scrolled off the grid.
    pub fn scrollback_len(&self) -> (r: usize)
        ensures
            r == self.spec_scrollback_len(),
    {
        self.scrollback_len
    }

    /// The full scroll history and the current viewport, formatted for a
    /// later display outside a live terminal.
    pub fn all_contents_formatted(&self) -> (r: Vec<u8>)
        ensures
            r@ == self.contents(),
    {
        let mut out: Vec<u8> = Vec::new();
        let mut i: usize = 0;
        while i < self.contents.len()
            invariant
                i <= self.contents.len(),
                out@ == self.contents@.take(i as int),
            decreases self.contents.len() - i,
        {
            out.push(self.contents[i]);
            i += 1;
        }
        out
    }
}

/// The record of one live execution.
#[derive(Clone, Debug, PartialEq, Eq)]
pub struct PtyInstance {
    rows: u16,
    cols: u16,
    exit_status: Option<i32>,
    screen: Option<Screen>,
}

impl PtyInstance {
    /// The number of rows of the pseudo-terminal.
    pub closed spec fn spec_rows(&self) -> u16 {
        self.rows
    }

    /// The number of columns of the pseudo-terminal.
    pub closed spec fn spec_cols(&self) -> u16 {
        self.cols
    }

    /// The exit code of the subprocess, once it has ended.
    pub closed spec fn exit_status(&self) -> Option<i32> {
        self.exit_status
    }

    /// The latest capture of the screen, once the emulator has produced one.
    pub closed spec fn screen(&self) -> Option<Screen> {
        self.screen
    }

    /// The captured bytes, empty while there is no capture.
    pub open spec fn captured(&self) -> Seq<u8> {
        match self.screen() {
            Some(screen) => screen.contents(),
            None => Seq::<u8>::empty(),
        }
    }

    /// The number of lines that have scrolled off the screen, zero while
    /// there is no capture.
    pub open spec fn scrollback_len(&self) -> nat {
        match self.screen() {
            Some(screen) => screen.spec_scrollback_len() as nat,
            None => 0,
        }
    }

    /// The grid of the emulator has the size of the pseudo-terminal.
    pub open spec fn wf(&self) -> bool {
        self.screen() is Some ==> self.screen()->Some_0.spec_rows() == self.spec_rows()
            && self.screen()->Some_0.spec_cols() == self.spec_cols()
    }

    /// The record of an execution that has just been spawned in a
    /// pseudo-terminal of the given size: still running, nothing captured.
    pub fn new(rows: u16, cols: u16) -> (pty: Self)
        ensures
            pty == fresh_record(rows, cols),
            pty.wf(),
            pty.spec_rows() == rows,
            pty.spec_cols() == cols,
            pty.exit_status() is None,
            pty.screen() is None,
    {
        PtyInstance { rows, cols, exit_status: None, screen: None }
    }

    /// The size of the pseudo-terminal as (rows, columns).
    pub fn size(&self) -> (r: (u16, u16))
        ensures
            r == (self.spec_rows(), self.spec_cols()),
    {
        (self.rows, self.cols)
    }

    /// `None` while the subprocess runs, its exit code once it has ended.
    /// Reading changes nothing, so every later read gives the same answer.
    pub fn get_exit_status(&self) -> (r: Option<i32>)
        ensures
            r == self.exit_status(),
    {
        self.exit_status
    }

    /// The latest capture of the screen, if the emulator has produced one.
    pub fn get_screen(&self) -> (r: Option<&Screen>)
        ensures
            r is Some <==> self.screen() is Some,
            r is Some ==> *r->Some_0 == self.screen()->Some_0,
    {
        self.screen.as_ref()
    }

    /// Records that the subprocess has ended with `code`.
    ///
    /// The first call wins: once an exit status is recorded, no later call
    /// changes it. Returns whether this call was the one that recorded it.
    pub fn set_exit_status(&mut self, code: i32) -> (recorded: bool)
        ensures
            recorded == (old(self).exit_status() is None),
            final(self).exit_status() == exit_after(old(self).exit_status(), code),
            final(self).spec_rows() == old(self).spec_rows(),
            final(self).spec_cols() == old(self).spec_cols(),
            final(self).screen() == old(self).screen(),
            *final(self) == exited(*old(self), code),
    {
        if self.exit_status.is_none() {
            self.exit_status = Some(code);
            true
        } else {
            false
        }
    }

    /// Replaces the capture of the screen by a newer one, taken at the
    /// current size: `contents` is the scroll history followed by the
    /// viewport, and `scrollback_len` the number of lines that have scrolled
    /// off.
    pub fn capture_screen(&mut self, contents: Vec<u8>, scrollback_len: usize)
        ensures
            final(self).screen() is Some,
            final(self).captured() == contents@,
            final(self).scrollback_len() == scrollback_len,
            final(self).wf(),
            final(self).spec_rows() == old(self).spec_rows(),
            final(self).spec_cols() == old(self).spec_cols(),
            final(self).exit_status() == old(self).exit_status(),
            *final(self) == recaptured(*old(self), contents, scrollback_len),
    {
        self.screen = Some(Screen { rows: self.rows, cols: self.cols, scrollback_len, contents });
    }

    /// Gives the pseudo-terminal and the emulator's grid a new size.
    ///
    /// Nothing that was captured is lost: the scroll history and the viewport
    /// are exactly what they were, no line that has scrolled off is dropped,
    /// and the exit status stays.
    pub fn resize(&mut self, rows: u16, cols: u16)
        ensures
            final(self).spec_rows() == rows,
            final(self).spec_cols() == cols,
            final(self).wf(),
            final(self).captured() == old(self).captured(),
            final(self).scrollback_len() == old(self).scrollback_len(),
            final(self).screen() is Some <==> old(self).screen() is Some,
            final(self).exit_status() == old(self).exit_status(),
            *final(self) == resized(*old(self), rows, cols),
    {
        self.rows = rows;
        self.cols = cols;
        match &mut self.screen {
            Some(screen) => {
                screen.rows = rows;
                screen.cols = cols;
            },
            None => {},
        }
    }

    /// The full formatted output captured so far; empty while there is no
    /// capture.
    pub fn all_contents_formatted(&self) -> (r: Vec<u8>)
        ensures
            r@ == self.captured(),
    {
        match &self.screen {
            Some(screen) => screen.all_contents_formatted(),
            None => Vec::new(),
        }
    }
}

/// The exit code that the dashboard reports for the raw exit code of a
/// subprocess: the code itself where it fits, else the largest code that
/// does.
pub open spec fn reported_exit_code(raw: u32) -> i32 {
    if raw <= i32::MAX as u32 {
        raw as i32
    } else {
        i32::MAX
    }
}

/// The exit code that the dashboard reports for the raw exit code of a
/// subprocess.
pub fn exit_code_from(raw: u32) -> (code: i32)
    ensures
        code == reported_exit_code(raw),
{
    if raw <= 0x7fff_ffff {
        raw as i32
    } else {
        i32::MAX
    }
}

/// The content of the exit cell after an attempt to record `code`.
pub open spec fn exit_after(cell: Option<i32>, code: i32) -> Option<i32> {
    match cell {
        Some(first) => Some(first),
        None => Some(code),
    }
}

/// The content of the exit cell after a series of attempts, first to last.
pub open spec fn exit_after_all(cell: Option<i32>, codes: Seq<i32>) -> Option<i32>
    decreases codes.len(),
{
    if codes.len() == 0 {
        cell
    } else {
        exit_after(exit_after_all(cell, codes.drop_last()), codes.last())
    }
}

/// The record of an execution that has just been spawned in a
/// pseudo-terminal of the given size.
pub closed spec fn fresh_record(rows: u16, cols: u16) -> PtyInstance {
    PtyInstance { rows, cols, exit_status: None, screen: None }
}

/// The record after an attempt to record the exit code `code`.
pub closed spec fn exited(pty: PtyInstance, code: i32) -> PtyInstance {
    PtyInstance { exit_status: exit_after(pty.exit_status, code), ..pty }
}

/// The record after the screen has been captured anew as `contents`.
pub closed spec fn recaptured(pty: PtyInstance, contents: Vec<u8>, scrollback_len: usize) -> PtyInstance {
    PtyInstance { screen: Some(Screen { rows: pty.rows, cols: pty.cols, scrollback_len, contents }), ..pty }
}

/// The record after a resize to the given size.
pub closed spec fn resized(pty: PtyInstance, rows: u16, cols: u16) -> PtyInstance {
    PtyInstance {
        rows,
        cols,
        exit_status: pty.exit_status,
        screen: match pty.screen {
            Some(screen) => Some(Screen { rows, cols, ..screen }),
            None => None,
        },
    }
}

/// An execution that has just been spawned has the size that it was given,
/// still runs, and has no capture.
pub proof fn lemma_fresh_record(rows: u16, cols: u16)
    ensures
        fresh_record(rows, cols).spec_rows() == rows,
        fresh_record(rows, cols).spec_cols() == cols,
        fresh_record(rows, cols).exit_status() is None,
        fresh_record(rows, cols).screen() is None,
        fresh_record(rows, cols).wf(),
{
}

/// Recording an exit touches the exit cell alone, and the cell keeps the
/// first code that it was given.
pub proof fn lemma_exited(pty: PtyInstance, code: i32)
    ensures
        exited(pty, code).exit_status() == exit_after(pty.exit_status(), code),
        exited(pty, code).screen() == pty.screen(),
        exited(pty, code).spec_rows() == pty.spec_rows(),
        exited(pty, code).spec_cols() == pty.spec_cols(),
        pty.wf() ==> exited(pty, code).wf(),
{
}

/// A new capture replaces the screen alone, at the size of the
/// pseudo-terminal.
pub proof fn lemma_recaptured(pty: PtyInstance, contents: Vec<u8>, scrollback_len: usize)
    ensures
        recaptured(pty, contents, scrollback_len).screen() is Some,
        recaptured(pty, contents, scrollback_len).captured() == contents@,
        recaptured(pty, contents, scrollback_len).scrollback_len() == scrollback_len,
        recaptured(pty, contents, scrollback_len).exit_status() == pty.exit_status(),
        recaptured(pty, contents, scrollback_len).spec_rows() == pty.spec_rows(),
        recaptured(pty, contents, scrollback_len).spec_cols() == pty.spec_cols(),
        recaptured(pty, contents, scrollback_len).wf(),
{
}

/// An exit status that has been observed never changes, whatever is recorded
/// afterwards.
pub proof fn law_exit_status_is_write_once(code: i32, later: Seq<i32>)
    ensures
        exit_after_all(Some(code), later) == Some(code),
    decreases later.len(),
{
    if later.len() > 0 {
        law_exit_status_is_write_once(code, later.drop_last());
    }
}

/// A resize alone keeps everything that was captured: the scroll history
/// does not get shorter, the captured bytes stay, and so does the exit
/// status. The same holds of any number of resizes in a row.
pub proof fn law_resize_keeps_capture(pty: PtyInstance, rows: u16, cols: u16)
    ensures
        resized(pty, rows, cols).scrollback_len() == pty.scrollback_len(),
        resized(pty, rows, cols).captured() == pty.captured(),
        resized(pty, rows, cols).exit_status() == pty.exit_status(),
        resized(pty, rows, cols).spec_rows() == rows,
        resized(pty, rows, cols).spec_cols() == cols,
        resized(pty, rows, cols).wf(),
{
}

} // verus!
