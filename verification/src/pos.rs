//! Seats around the table.
use vstd::prelude::*;

verus! {

/// Largest number of seats at a table.
pub const MAX_PLAYERS: usize = 4;

/// A seat, counted from the first.
#[derive(Clone, Copy, Debug, PartialEq, Eq, Structural, Hash)]
pub enum AbsolutePos {
    P0,
    P1,
    P2,
    P3,
}

impl AbsolutePos {
    /// The seat's number.
    pub open spec fn index(self) -> int {
        match self {
            AbsolutePos::P0 => 0,
            AbsolutePos::P1 => 1,
            AbsolutePos::P2 => 2,
            AbsolutePos::P3 => 3,
        }
    }

    /// The seat with number `n`; numbers past the last are the last seat's.
    pub open spec fn of_index(n: int) -> AbsolutePos {
        if n == 0 {
            AbsolutePos::P0
        } else if n == 1 {
            AbsolutePos::P1
        } else if n == 2 {
            AbsolutePos::P2
        } else {
            AbsolutePos::P3
        }
    }

    pub fn to_n(self) -> (n: usize)
        ensures
            n == self.index(),
            n < MAX_PLAYERS,
    {
        match self {
            AbsolutePos::P0 => 0,
            AbsolutePos::P1 => 1,
            AbsolutePos::P2 => 2,
            AbsolutePos::P3 => 3,
        }
    }

    pub fn from_n(n: usize) -> (p: AbsolutePos)
        requires
            n < MAX_PLAYERS,
        ensures
            p == AbsolutePos::of_index(n as int),
            p.index() == n,
    {
        if n == 0 {
            AbsolutePos::P0
        } else if n == 1 {
            AbsolutePos::P1
        } else if n == 2 {
            AbsolutePos::P2
        } else {
            AbsolutePos::P3
        }
    }
}

/// A seat at a table of `count` seats.
#[derive(Clone, Copy, Debug, PartialEq, Eq, Structural, Hash)]
pub struct PlayerPos {
    pub pos: AbsolutePos,
    pub count: u8,
}

impl PlayerPos {
    /// The seat is one of its table: the table has between one and
    /// `MAX_PLAYERS` seats, and the seat's number is under their count.
    pub open spec fn wf(self) -> bool {
        1 <= self.count <= MAX_PLAYERS && self.pos.index() < self.count
    }

    /// The seat's number.
    pub open spec fn index(self) -> int {
        self.pos.index()
    }

    /// Seat `n` of a table of `count` seats, counted round the table.
    pub open spec fn seat(n: int, count: u8) -> PlayerPos {
        PlayerPos { pos: AbsolutePos::of_index(n % (count as int)), count }
    }

    /// The seat that plays after this one.
    pub open spec fn spec_next(self) -> PlayerPos {
        PlayerPos::seat(self.index() + 1, self.count)
    }

    /// The seat that plays before this one.
    pub open spec fn spec_prev(self) -> PlayerPos {
        PlayerPos::seat(self.index() + self.count - 1, self.count)
    }

    /// Seat `n` of a table of `count` seats; a number past the last seat goes on
    /// round the table.
    pub fn from_n(n: usize, count: u8) -> (p: PlayerPos)
        requires
            1 <= count <= MAX_PLAYERS,
        ensures
            p == PlayerPos::seat(n as int, count),
            p.wf(),
            p.index() == n % (count as usize),
    {
        PlayerPos { pos: AbsolutePos::from_n(n % (count as usize)), count }
    }

    pub fn to_n(self) -> (n: usize)
        ensures
            n == self.index(),
            n < MAX_PLAYERS,
    {
        self.pos.to_n()
    }

    /// The seat that plays after this one; after the last seat comes the first.
    pub fn next(self) -> (p: PlayerPos)
        requires
            self.wf(),
        ensures
            p == self.spec_next(),
            p.wf(),
            p.index() == (self.index() + 1) % (self.count as int),
    {
        PlayerPos::from_n(self.pos.to_n() + 1, self.count)
    }

    /// The seat that plays before this one; before the first seat comes the last.
    pub fn prev(self) -> (p: PlayerPos)
        requires
            self.wf(),
        ensures
            p == self.spec_prev(),
            p.wf(),
            p.index() == (self.index() + self.count - 1) % (self.count as int),
    {
        PlayerPos::from_n(self.pos.to_n() + self.count as usize - 1, self.count)
    }

    /// The neighbours of a seat are seats of its table, one step on and one step
    /// back round it.
    pub proof fn lemma_cases(self)
        requires
            self.wf(),
        ensures
            self.spec_next().wf(),
            self.spec_prev().wf(),
            self.spec_next().count == self.count,
            self.spec_prev().count == self.count,
            self.spec_next().index() == (if self.index() + 1 == self.count {
                0
            } else {
                self.index() + 1
            }),
            self.spec_prev().index() == (if self.index() == 0 {
                self.count - 1
            } else {
                self.index() - 1
            }),
            self == PlayerPos::seat(self.index(), self.count),
    {
        let c = self.count as int;
        let i = self.index();
        if c == 1 {
            assert((i + 1) % 1 == 0 && (i + 1 - 1) % 1 == 0 && i % 1 == 0);
        } else if c == 2 {
            assert((0 + 1int) % 2 == 1 && (1 + 1int) % 2 == 0 && 0int % 2 == 0 && 1int % 2 == 1);
        } else if c == 3 {
            assert(0int % 3 == 0 && 1int % 3 == 1 && 2int % 3 == 2 && 3int % 3 == 0 && 4int % 3
                == 1);
        } else {
            assert(0int % 4 == 0 && 1int % 4 == 1 && 2int % 4 == 2 && 3int % 4 == 3 && 4int % 4
                == 0 && 5int % 4 == 1 && 6int % 4 == 2);
        }
    }

    /// Going to the next seat and back, or back and then on, ends on the same seat.
    pub proof fn lemma_next_prev(self)
        requires
            self.wf(),
        ensures
            self.spec_next().spec_prev() == self,
            self.spec_prev().spec_next() == self,
    {
        self.lemma_cases();
        self.spec_next().lemma_cases();
        self.spec_prev().lemma_cases();
    }

    /// After as many steps as the table has seats, the turn is back where it was.
    pub proof fn lemma_round(self)
        requires
            self.wf(),
        ensures
            self.count == 1 ==> self.spec_next() == self,
            self.count == 2 ==> self.spec_next().spec_next() == self,
            self.count == 3 ==> self.spec_next().spec_next().spec_next() == self,
            self.count == 4 ==> self.spec_next().spec_next().spec_next().spec_next() == self,
    {
        self.lemma_cases();
        self.spec_next().lemma_cases();
        self.spec_next().spec_next().lemma_cases();
        self.spec_next().spec_next().spec_next().lemma_cases();
    }
}

} // verus!
