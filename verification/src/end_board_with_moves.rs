//! A candidate outcome of the autoplayer's search: the board a drop
//! ends in, together with the commands that reach it.

use vstd::prelude::*;

use crate::board::{Board, BoardView};
use crate::commands::Command;

verus! {

/// Mathematical model of a candidate: the final board and the command
/// sequence that produces it.
#[verifier::ext_equal]
pub struct EndBoardView {
    pub board: BoardView,
    pub commands: Seq<Command>,
}

/// A candidate final board with the commands that reach it.
#[derive(Debug)]
pub struct EndBoardWithMoves {
    pub board: Board,
    pub commands: Vec<Command>,
}

impl View for EndBoardWithMoves {
    type V = EndBoardView;

    open spec fn view(&self) -> EndBoardView {
        EndBoardView { board: self.board@, commands: self.commands@ }
    }
}

/// The candidates' models, in order.
pub open spec fn views_of(s: Seq<EndBoardWithMoves>) -> Seq<EndBoardView> {
    s.map_values(|e: EndBoardWithMoves| e@)
}

/// Taking views commutes with appending one candidate.
pub proof fn lemma_views_push(s: Seq<EndBoardWithMoves>, e: EndBoardWithMoves)
    ensures
        views_of(s.push(e)) == views_of(s).push(e@),
{
    assert(views_of(s.push(e)) =~= views_of(s).push(e@));
}

impl Clone for EndBoardWithMoves {
    fn clone(&self) -> (r: Self)
        ensures
            r@ == self@,
    {
        let mut commands: Vec<Command> = Vec::new();
        let mut i: usize = 0;
        while i < self.commands.len()
            invariant
                i <= self.commands.len(),
                commands@ == self.commands@.subrange(0, i as int),
            decreases self.commands.len() - i,
        {
            commands.push(self.commands[i]);
            proof {
                assert(commands@ =~= self.commands@.subrange(0, i + 1));
            }
            i = i + 1;
        }
        proof {
            assert(commands@ =~= self.commands@);
        }
        let r = EndBoardWithMoves { board: self.board.clone(), commands };
        proof {
            assert(r@ =~= self@);
        }
        r
    }
}

impl EndBoardWithMoves {
    pub fn new(board: Board, commands: Vec<Command>) -> (r: EndBoardWithMoves)
        ensures
            r@ == (EndBoardView { board: board@, commands: commands@ }),
    {
        EndBoardWithMoves { board, commands }
    }
}

} // verus!
