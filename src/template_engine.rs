//! The observer contract between the tree walker and an output format.
use vstd::prelude::*;
use crate::syntax::SyntaxTree;

verus! {

/// One call that the walker makes on an engine.
pub enum Event {
    /// A token was visited under the top-level boundary.
    Token { description: Seq<char>, text: Seq<char>, node: SyntaxTree },
    /// An internal node is entered.
    NodeStart { description: Seq<char>, node: SyntaxTree },
    /// The same node is left.
    NodeEnd { description: Seq<char>, node: SyntaxTree },
}

/// An output format that the tree walker drives. The walker calls `token`,
/// `node_start` and `node_end` in the nesting order of the tree; the engine
/// then hands out what it made with `get_result`.
pub trait TemplateEngine: Sized {
    /// The calls that the engine has received, in order.
    spec fn log(&self) -> Seq<Event>;

    /// The engine's own consistency between calls.
    spec fn inv(&self) -> bool;

    /// The output that the engine has made so far.
    spec fn result(&self) -> Seq<char>;

    fn token(&mut self, description: &str, text: &str, node: &SyntaxTree)
        requires
            old(self).inv(),
        ensures
            final(self).inv(),
            final(self).log() == old(self).log().push(
                Event::Token { description: description@, text: text@, node: *node },
            ),
    ;

    fn node_start(&mut self, description: &str, node: &SyntaxTree)
        requires
            old(self).inv(),
        ensures
            final(self).inv(),
            final(self).log() == old(self).log().push(
                Event::NodeStart { description: description@, node: *node },
            ),
    ;

    fn node_end(&mut self, description: &str, node: &SyntaxTree)
        requires
            old(self).inv(),
        ensures
            final(self).inv(),
            final(self).log() == old(self).log().push(
                Event::NodeEnd { description: description@, node: *node },
            ),
    ;

    fn get_result(&self) -> (r: String)
        requires
            self.inv(),
        ensures
            r@ == self.result(),
    ;
}

} // verus!
