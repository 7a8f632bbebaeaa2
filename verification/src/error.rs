use vstd::prelude::*;

verus! {

/// Mathematical image of a reported error: a source line and a message.
pub struct ErrS {
    pub line: nat,
    pub msg: Seq<char>,
}

/// The views of an error list, in order.
pub open spec fn errs_view(s: Seq<LoxError>) -> Seq<ErrS> {
    s.map_values(|e: LoxError| e@)
}

/// An error surfaced by any stage of the pipeline: scanning, parsing,
/// resolution or evaluation.  It carries the source line it was detected on
/// and a human-readable message; the caller decides how to present it.
pub struct LoxError {
    pub line: usize,
    pub message: String,
}

impl View for LoxError {
    type V = ErrS;

    open spec fn view(&self) -> ErrS {
        ErrS { line: self.line as nat, msg: self.message@ }
    }
}

impl LoxError {
    pub fn new(line: usize, message: String) -> (r: LoxError)
        ensures
            r@ == (ErrS { line: line as nat, msg: message@ }),
    {
        LoxError { line, message }
    }

    pub fn line(&self) -> (r: usize)
        ensures
            r as nat == self@.line,
    {
        self.line
    }

    pub fn message(&self) -> (r: &String)
        ensures
            r@ == self@.msg,
    {
        &self.message
    }

    /// The presentation used when an error is reported to a user.
    pub fn render(&self) -> (r: String)
        requires
            self@.line < usize::MAX,
        ensures
            r@ == "Error [line "@ + crate::number::dec_text(self@.line + 1) + "]: "@
                + self@.msg,
    {
        let mut s = String::from_str("Error [line ");
        s.append(crate::number::usize_text(self.line + 1).as_str());
        s.append("]: ");
        s.append(self.message.as_str());
        s
    }
}

} // verus!
