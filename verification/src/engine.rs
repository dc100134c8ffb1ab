use vstd::prelude::*;

verus! {

/// The small engine surface needed by the browser shell.
pub trait BrowserEngine {
    fn navigate(&mut self, url: &str) -> Result<(), BrowserError>;

    /// Loads `url` in place of the current entry of the engine's own back/forward list.
    fn navigate_replacing(&mut self, url: &str) -> Result<(), BrowserError>;

    fn go_back(&mut self) -> Result<(), BrowserError>;

    fn go_forward(&mut self) -> Result<(), BrowserError>;

    fn reload(&mut self) -> Result<(), BrowserError>;
}

/// An engine operation that failed, with a human-readable reason.
#[derive(Debug, Clone, PartialEq, Eq)]
pub struct BrowserError {
    message: String,
}

impl BrowserError {
    /// The reason this error carries.
    pub closed spec fn text(&self) -> Seq<char> {
        self.message@
    }

    pub fn new(message: &str) -> (r: Self)
        ensures
            r.text() == message@,
    {
        BrowserError { message: message.to_owned() }
    }

    /// The reason, as shown to the user.
    pub fn message(&self) -> (r: &str)
        ensures
            r@ == self.text(),
    {
        self.message.as_str()
    }
}

} // verus!
