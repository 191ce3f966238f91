use vstd::prelude::*;

verus! {

/// The single error type of the library. Every fallible operation reports a
/// human-readable message; callers that need to react to a failure do so at
/// the call site, where the contracts say exactly when an `Err` can appear.
#[derive(Debug)]
pub struct AlipayError {
    message: String,
}

impl AlipayError {
    /// The characters of the stored message.
    pub closed spec fn text(&self) -> Seq<char> {
        self.message@
    }

    pub fn new(message: &str) -> (r: Self)
        ensures
            r.text() == message@,
    {
        AlipayError { message: message.to_owned() }
    }

    /// The full display text, as callers print it.
    pub fn message(&self) -> (r: String)
        ensures
            r@ == "alipay error: "@ + self.text(),
    {
        let mut r = "alipay error: ".to_owned();
        r.append(self.message.as_str());
        r
    }
}

pub type AlipayResult<T> = Result<T, AlipayError>;

} // verus!
