use vstd::prelude::*;

verus! {

use vstd::string::*;

/// A minimal plugin. A plugin receives a transaction handle and a JSON
/// argument and answers with a JSON value; this one ignores the store and
/// greets the rendered argument. The host renders the argument to text
/// and wraps the reply; the greeting itself is built and specified here.
pub struct HelloWorldPlugin {}

impl HelloWorldPlugin {
    /// The greeting for a rendered argument: "hello, " followed by the
    /// argument's text.
    pub fn call(&self, arg: &str) -> (r: String)
        ensures
            r@ == "hello, "@ + arg@,
    {
        let mut s = String::from_str("hello, ");
        s.append(arg);
        s
    }
}

} // verus!
