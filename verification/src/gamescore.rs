//! The score of a game and the rule that ends it.

use crate::paddle::PaddleSide;
use vstd::prelude::*;

verus! {

/// The points that win a game where no other number is given.
pub const DEFAULT_WIN_SCORE: u32 = 10;

/// The points of both sides, the left side first, and the points that win.
#[derive(Clone, Copy, Debug)]
pub struct GameScore {
    score: [u32; 2],
    win_score: u32,
}

impl GameScore {
    /// The points of `side`.
    pub closed spec fn points(&self, side: PaddleSide) -> int {
        self.score[side.spec_index() as int] as int
    }

    /// The points that win the game.
    pub closed spec fn target(&self) -> int {
        self.win_score as int
    }

    /// The side that has won: the left one where it has the points that win,
    /// else the right one where it has them, else none.
    pub open spec fn winner(&self) -> Option<PaddleSide> {
        if self.points(PaddleSide::Left) >= self.target() {
            Some(PaddleSide::Left)
        } else if self.points(PaddleSide::Right) >= self.target() {
            Some(PaddleSide::Right)
        } else {
            None
        }
    }

    /// A score of nil to nil in a game that `win_score` points win.
    pub fn new(win_score: u32) -> (game_score: GameScore)
        ensures
            game_score.points(PaddleSide::Left) == 0,
            game_score.points(PaddleSide::Right) == 0,
            game_score.target() == win_score,
    {
        GameScore { score: [0, 0], win_score }
    }

    /// Both sides' points, the left side's first.
    pub fn score(&self) -> (score: &[u32; 2])
        ensures
            score[0] == self.points(PaddleSide::Left),
            score[1] == self.points(PaddleSide::Right),
    {
        &self.score
    }

    /// The points that win the game.
    pub fn win_score(&self) -> (win_score: &u32)
        ensures
            *win_score == self.target(),
    {
        &self.win_score
    }

    /// The points of `side`.
    pub fn get_score(&self, side: PaddleSide) -> (points: u32)
        ensures
            points == self.points(side),
    {
        self.score[side.index()]
    }

    /// Gives `side` one more point.
    pub fn increment_score(&mut self, side: PaddleSide)
        requires
            old(self).points(side) < u32::MAX,
        ensures
            final(self).points(side) == old(self).points(side) + 1,
            forall|other: PaddleSide|
                other != side ==> final(self).points(other) == old(self).points(other),
            final(self).target() == old(self).target(),
    {
        let i: usize = side.index();
        let points: u32 = self.score[i];
        self.score[i] = points + 1;
    }

    /// Takes the points of both sides away; the points that win stay.
    pub fn reset_score(&mut self)
        ensures
            final(self).points(PaddleSide::Left) == 0,
            final(self).points(PaddleSide::Right) == 0,
            final(self).target() == old(self).target(),
    {
        self.score = [0, 0];
    }

    /// The side that has won, if one has.
    pub fn get_winner(&self) -> (winner: Option<PaddleSide>)
        ensures
            winner == self.winner(),
    {
        if self.score[0] >= self.win_score {
            Some(PaddleSide::Left)
        } else if self.score[1] >= self.win_score {
            Some(PaddleSide::Right)
        } else {
            None
        }
    }
}

impl Default for GameScore {
    /// A score of nil to nil in a game that the default number of points
    /// wins.
    fn default() -> (game_score: GameScore)
        ensures
            game_score.points(PaddleSide::Left) == 0,
            game_score.points(PaddleSide::Right) == 0,
            game_score.target() == DEFAULT_WIN_SCORE,
    {
        GameScore { score: [0, 0], win_score: DEFAULT_WIN_SCORE }
    }
}

} // verus!
