use crate::text::join3;
use vstd::prelude::*;

verus! {

/// The name of the one to greet.
#[derive(Debug)]
pub struct GreetParams(pub String);

/// The greeting.
#[derive(Debug)]
pub struct GreetResponse(pub String);

impl Clone for GreetParams {
    fn clone(&self) -> (r: Self)
        ensures
            r.0@ == self.0@,
    {
        GreetParams(self.0.clone())
    }
}

impl Clone for GreetResponse {
    fn clone(&self) -> (r: Self)
        ensures
            r.0@ == self.0@,
    {
        GreetResponse(self.0.clone())
    }
}

impl Default for GreetParams {
    fn default() -> (r: Self)
        ensures
            r.0@ == Seq::<char>::empty(),
    {
        GreetParams(String::new())
    }
}

impl Default for GreetResponse {
    fn default() -> (r: Self)
        ensures
            r.0@ == Seq::<char>::empty(),
    {
        GreetResponse(String::new())
    }
}

/// The greeting for a name.
pub fn greeting(params: &GreetParams) -> (r: GreetResponse)
    ensures
        r.0@ == "Hello, "@ + params.0@ + "!"@,
{
    GreetResponse(join3("Hello, ", params.0.as_str(), "!"))
}

} // verus!
