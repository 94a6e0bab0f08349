//! The command line: the address to listen on and the address to forward to.
use vstd::prelude::*;
use vstd::string::*;

verus! {

/// The command line of the proxy.
pub struct Cli {
    /// Where to listen, such as `http://:8080`.
    pub listen: String,
    /// Where to forward to, such as `http://192.168.1.1:8080`.
    pub forward: String,
}

impl Cli {
    /// The address to listen on.
    pub fn get_listen(&self) -> (r: &str)
        ensures
            r@ == self.listen@,
    {
        self.listen.as_str()
    }

    /// The address to forward to.
    pub fn get_forward(&self) -> (r: &str)
        ensures
            r@ == self.forward@,
    {
        self.forward.as_str()
    }
}

impl Default for Cli {
    /// The values the command line takes when no option is given.
    fn default() -> (r: Self)
        ensures
            r.listen@ == "http://:8080"@,
            r.forward@ == "http://192.168.1.1:8080"@,
    {
        Cli {
            listen: String::from_str("http://:8080"),
            forward: String::from_str("http://192.168.1.1:8080"),
        }
    }
}

} // verus!
