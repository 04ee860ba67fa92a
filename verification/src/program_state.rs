//! What a running program holds: its variables, the output it has produced
//! and not yet handed over, the errors it has to report, and the first
//! runtime error of the run.

use vstd::prelude::*;
use vstd::string::*;

use crate::ast::{assign, StoreView};
use crate::ast::Expression;
use crate::errors::{unit_result_view, Error, ErrorView, RuntimeError};
use crate::file::{file_view, FileState};
use crate::variables::{empty_arrays, zeros, Variable, VariableState};

verus! {

/// Bytes written and not yet taken.
pub struct Buffer {
    data: Vec<u8>,
}

impl View for Buffer {
    type V = Seq<u8>;

    closed spec fn view(&self) -> Seq<u8> {
        self.data@
    }
}

impl Default for Buffer {
    fn default() -> (r: Self)
        ensures
            r@ == Seq::<u8>::empty(),
    {
        Self::new()
    }
}

impl Buffer {
    pub fn new() -> (r: Self)
        ensures
            r@ == Seq::<u8>::empty(),
    {
        Buffer { data: Vec::new() }
    }

    /// Appends `buf`; the number of bytes written is its length.
    pub fn write(&mut self, buf: &[u8]) -> (n: usize)
        ensures
            final(self)@ == old(self)@ + buf@,
            n == buf@.len(),
    {
        let mut i: usize = 0;
        while i < buf.len()
            invariant
                i <= buf.len(),
                self@ == old(self)@ + buf@.subrange(0, i as int),
            decreases buf.len() - i,
        {
            self.data.push(buf[i]);
            i = i + 1;
            assert(self@ =~= old(self)@ + buf@.subrange(0, i as int));
        }
        assert(buf@.subrange(0, i as int) == buf@);
        i
    }

    /// Removes the newline that ends the buffer. An empty buffer stays empty.
    pub fn trim_newline(&mut self)
        requires
            old(self)@.len() == 0 || old(self)@.last() == 10,
        ensures
            final(self)@ == (if old(self)@.len() == 0 {
                old(self)@
            } else {
                old(self)@.drop_last()
            }),
    {
        if self.data.len() > 0 {
            self.data.pop();
        }
    }

    pub fn as_slice(&self) -> (r: &[u8])
        ensures
            r@ == self@,
    {
        self.data.as_slice()
    }

    pub fn len(&self) -> (r: usize)
        ensures
            r == self@.len(),
    {
        self.data.len()
    }

    /// Hands over what the buffer holds and leaves it empty.
    pub fn take(&mut self) -> (r: Vec<u8>)
        ensures
            r@ == old(self)@,
            final(self)@ == Seq::<u8>::empty(),
    {
        let mut data: Vec<u8> = Vec::new();
        std::mem::swap(&mut data, &mut self.data);
        data
    }
}

/// An error to report: the file on which the program failed, if it failed on
/// a file, and how.
#[derive(Debug)]
pub struct Diagnostic {
    pub path: Option<String>,
    pub error: Error,
}

pub struct DiagnosticView {
    pub path: Option<Seq<char>>,
    pub error: ErrorView,
}

impl View for Diagnostic {
    type V = DiagnosticView;

    open spec fn view(&self) -> DiagnosticView {
        DiagnosticView {
            path: match self.path {
                Some(p) => Some(p@),
                None => None,
            },
            error: self.error@,
        }
    }
}

pub open spec fn diagnostics_view(s: Seq<Diagnostic>) -> Seq<DiagnosticView> {
    s.map_values(|d: Diagnostic| d@)
}

pub struct ProgramState {
    vars: VariableState<'static>,
    /// Output that has been produced and is yet to be written to the sink
    out: Buffer,
    /// Errors that are yet to be reported
    diagnostics: Vec<Diagnostic>,
    /// Stores the first runtime error that occurs, so that every worker can
    /// see that another one met a runtime error
    runtime_error: Option<RuntimeError>,
}

pub struct StateView {
    pub store: StoreView,
    pub out: Seq<u8>,
    pub diagnostics: Seq<DiagnosticView>,
    pub runtime_error: Option<Seq<char>>,
}

impl View for ProgramState {
    type V = StateView;

    closed spec fn view(&self) -> StateView {
        StateView {
            store: self.vars@,
            out: self.out@,
            diagnostics: diagnostics_view(self.diagnostics@),
            runtime_error: match self.runtime_error {
                Some(e) => Some(e@),
                None => None,
            },
        }
    }
}

/// The bytes of a text.
pub open spec fn utf8(s: Seq<char>) -> Seq<u8> {
    vstd::utf8::encode_utf8(s)
}

impl ProgramState {
    /// The variables are held at rest, and no array holds a key twice.
    pub closed spec fn well_formed(&self) -> bool {
        self.vars is Locked && self.vars.well_formed()
    }

    /// The state before a run: every scalar zero, every array empty, nothing
    /// written, nothing to report.
    pub fn new(num_scalars: usize, num_arrays: usize) -> (r: Self)
        ensures
            r@.store.scalars == zeros(num_scalars as nat),
            r@.store.arrays == empty_arrays(num_arrays as nat),
            r@.out == Seq::<u8>::empty(),
            r@.diagnostics == Seq::<DiagnosticView>::empty(),
            r@.runtime_error is None,
            r.well_formed(),
    {
        let r = ProgramState {
            vars: VariableState::new(num_scalars, num_arrays),
            out: Buffer::new(),
            diagnostics: Vec::new(),
            runtime_error: None,
        };
        assert(diagnostics_view(r.diagnostics@) =~= Seq::<DiagnosticView>::empty());
        r
    }

    pub fn vars(&self) -> (r: &VariableState<'static>)
        ensures
            r@ == self@.store,
    {
        &self.vars
    }

    /// Carries out one assignment.
    pub fn assign(&mut self, assignee: &Variable, f: Option<&FileState>, expr: &Expression) -> (r:
        Result<(), Error>)
        requires
            old(self).well_formed(),
        ensures
            final(self).well_formed(),
            (final(self)@.store, unit_result_view(r)) == assign(
                assignee@,
                expr@,
                file_view(f),
                old(self)@.store,
            ),
            final(self)@.out == old(self)@.out,
            final(self)@.diagnostics == old(self)@.diagnostics,
            final(self)@.runtime_error == old(self)@.runtime_error,
    {
        self.vars.set_variable_expression(assignee, f, expr)
    }

    /// Adds a text to the output.
    pub fn emit(&mut self, text: &str)
        ensures
            final(self)@ == (StateView { out: old(self)@.out + utf8(text@), ..old(self)@ }),
            final(self).well_formed() == old(self).well_formed(),
    {
        self.out.write(text.as_bytes());
    }

    /// Adds an error to those that are to be reported.
    pub fn report(&mut self, path: Option<String>, error: Error)
        ensures
            final(self)@ == (StateView {
                diagnostics: old(self)@.diagnostics.push(
                    DiagnosticView {
                        path: match path {
                            Some(p) => Some(p@),
                            None => None,
                        },
                        error: error@,
                    },
                ),
                ..old(self)@
            }),
            final(self).well_formed() == old(self).well_formed(),
    {
        self.diagnostics.push(Diagnostic { path, error });
        assert(diagnostics_view(self.diagnostics@) =~= diagnostics_view(
            old(self).diagnostics@,
        ).push(
            DiagnosticView {
                path: match path {
                    Some(p) => Some(p@),
                    None => None,
                },
                error: error@,
            },
        ));
    }

    /// Returns true if a runtime error has been recorded, that is, if some
    /// worker met one.
    pub fn check_runtime_error(&self) -> (r: bool)
        ensures
            r == self@.runtime_error is Some,
    {
        self.runtime_error.is_some()
    }

    /// Records a runtime error. Only the first one of a run is kept.
    pub fn set_runtime_error(&mut self, e: RuntimeError)
        ensures
            final(self)@ == (StateView {
                runtime_error: if old(self)@.runtime_error is Some {
                    old(self)@.runtime_error
                } else {
                    Some(e@)
                },
                ..old(self)@
            }),
            final(self).well_formed() == old(self).well_formed(),
    {
        if self.runtime_error.is_none() {
            self.runtime_error = Some(e);
        }
    }

    /// The first runtime error of the run, if there was one.
    pub fn runtime_error(&self) -> (r: Option<RuntimeError>)
        ensures
            self@.runtime_error == (match r {
                Some(e) => Some(e@),
                None => None,
            }),
    {
        match &self.runtime_error {
            Some(e) => Some(e.clone()),
            None => None,
        }
    }

    /// The output that is yet to be written.
    pub fn output(&self) -> (r: &Buffer)
        ensures
            r@ == self@.out,
    {
        &self.out
    }

    /// Hands over the output that is yet to be written.
    pub fn take_output(&mut self) -> (r: Vec<u8>)
        ensures
            r@ == old(self)@.out,
            final(self)@ == (StateView { out: Seq::<u8>::empty(), ..old(self)@ }),
            final(self).well_formed() == old(self).well_formed(),
    {
        self.out.take()
    }

    /// Hands over the errors that are yet to be reported.
    pub fn take_diagnostics(&mut self) -> (r: Vec<Diagnostic>)
        ensures
            diagnostics_view(r@) == old(self)@.diagnostics,
            final(self)@ == (StateView {
                diagnostics: Seq::<DiagnosticView>::empty(),
                ..old(self)@
            }),
            final(self).well_formed() == old(self).well_formed(),
    {
        let mut d: Vec<Diagnostic> = Vec::new();
        std::mem::swap(&mut d, &mut self.diagnostics);
        assert(diagnostics_view(self.diagnostics@) =~= Seq::<DiagnosticView>::empty());
        d
    }
}

} // verus!
