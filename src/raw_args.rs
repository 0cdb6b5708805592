use vstd::prelude::*;

verus! {

/// A one-pass cursor over the raw command-line tokens: each token is read at
/// most once, strictly left to right.
#[derive(Debug)]
pub struct RawArgs {
    tokens: Vec<String>,
    pos: usize,
}

impl View for RawArgs {
    type V = Seq<Seq<char>>;

    /// The tokens not yet consumed.
    closed spec fn view(&self) -> Seq<Seq<char>> {
        if self.pos <= self.tokens@.len() {
            Seq::new(
                (self.tokens@.len() - self.pos) as nat,
                |i: int| self.tokens@[self.pos + i]@,
            )
        } else {
            Seq::empty()
        }
    }
}

impl RawArgs {
    pub fn new(tokens: Vec<String>) -> (r: Self)
        ensures
            r@ == Seq::new(tokens@.len(), |i: int| tokens@[i]@),
    {
        let r = RawArgs { tokens, pos: 0 };
        proof {
            assert(r@ =~= Seq::new(tokens@.len(), |i: int| tokens@[i]@));
        }
        r
    }

    /// The next token, without consuming it.
    pub fn peek(&self) -> (r: Option<&String>)
        ensures
            self@.len() == 0 ==> r.is_none(),
            self@.len() > 0 ==> (r matches Some(s) && s@ == self@[0]),
    {
        if self.pos < self.tokens.len() {
            Some(&self.tokens[self.pos])
        } else {
            None
        }
    }

    /// Consumes the next token, if there is one.
    pub fn advance(&mut self)
        ensures
            old(self)@.len() == 0 ==> final(self)@ == old(self)@,
            old(self)@.len() > 0 ==> final(self)@ == old(self)@.drop_first(),
    {
        if self.pos < self.tokens.len() {
            self.pos = self.pos + 1;
            proof {
                assert(self@ =~= old(self)@.drop_first());
            }
        }
    }

    /// The number of tokens not yet consumed.
    pub fn remaining(&self) -> (r: usize)
        ensures
            r == self@.len(),
    {
        if self.pos < self.tokens.len() {
            self.tokens.len() - self.pos
        } else {
            0
        }
    }
}

} // verus!
