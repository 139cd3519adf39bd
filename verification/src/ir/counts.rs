use super::notation::{BeatType, Beats, TupletActual, TupletNormal};
use crate::error::{Error, Result};
use vstd::prelude::*;

verus! {

impl TupletActual {
    /// The number of notes that the value stands for.
    pub open spec fn count(self) -> nat {
        match self {
            TupletActual::Two => 2,
            TupletActual::Three => 3,
            TupletActual::Four => 4,
            TupletActual::Five => 5,
            TupletActual::Six => 6,
            TupletActual::Seven => 7,
            TupletActual::Eight => 8,
            TupletActual::Nine => 9,
            TupletActual::Ten => 10,
            TupletActual::Eleven => 11,
            TupletActual::Thirteen => 13,
            TupletActual::Fifteen => 15,
            TupletActual::Sixteen => 16,
            TupletActual::Seventeen => 17,
            TupletActual::Eighteen => 18,
            TupletActual::TwentyOne => 21,
            TupletActual::TwentyFive => 25,
        }
    }

    /// The value that stands for a number of notes, if there is one.
    pub open spec fn of_count(value: nat) -> Option<TupletActual> {
        if value == 2 {
            Some(TupletActual::Two)
        } else if value == 3 {
            Some(TupletActual::Three)
        } else if value == 4 {
            Some(TupletActual::Four)
        } else if value == 5 {
            Some(TupletActual::Five)
        } else if value == 6 {
            Some(TupletActual::Six)
        } else if value == 7 {
            Some(TupletActual::Seven)
        } else if value == 8 {
            Some(TupletActual::Eight)
        } else if value == 9 {
            Some(TupletActual::Nine)
        } else if value == 10 {
            Some(TupletActual::Ten)
        } else if value == 11 {
            Some(TupletActual::Eleven)
        } else if value == 13 {
            Some(TupletActual::Thirteen)
        } else if value == 15 {
            Some(TupletActual::Fifteen)
        } else if value == 16 {
            Some(TupletActual::Sixteen)
        } else if value == 17 {
            Some(TupletActual::Seventeen)
        } else if value == 18 {
            Some(TupletActual::Eighteen)
        } else if value == 21 {
            Some(TupletActual::TwentyOne)
        } else if value == 25 {
            Some(TupletActual::TwentyFive)
        } else {
            None
        }
    }

    /// The two directions undo each other, and a tuplet has 2 to 25 notes.
    pub proof fn lemma_count_inverse(self, value: nat)
        ensures
            Self::of_count(self.count()) == Some(self),
            2 <= self.count() <= 25,
            Self::of_count(value) == Some(self) <==> self.count() == value,
            Self::of_count(value) is Some ==> 2 <= value <= 25,
    {
    }

    /// The number that the value stands for.
    pub fn as_u32(&self) -> (value: u32)
        ensures
            value == self.count(),
            2 <= value <= 25,
    {
        match self {
            TupletActual::Two => 2,
            TupletActual::Three => 3,
            TupletActual::Four => 4,
            TupletActual::Five => 5,
            TupletActual::Six => 6,
            TupletActual::Seven => 7,
            TupletActual::Eight => 8,
            TupletActual::Nine => 9,
            TupletActual::Ten => 10,
            TupletActual::Eleven => 11,
            TupletActual::Thirteen => 13,
            TupletActual::Fifteen => 15,
            TupletActual::Sixteen => 16,
            TupletActual::Seventeen => 17,
            TupletActual::Eighteen => 18,
            TupletActual::TwentyOne => 21,
            TupletActual::TwentyFive => 25,
        }
    }

    /// The value for a number of notes; `Unit` where the format has none.
    pub fn from_u32(value: u32) -> (r: Result<TupletActual>)
        ensures
            r == match Self::of_count(value as nat) {
                Some(v) => Ok::<TupletActual, Error>(v),
                None => Err::<TupletActual, Error>(Error::Unit),
            },
    {
        match value {
            2 => Ok(TupletActual::Two),
            3 => Ok(TupletActual::Three),
            4 => Ok(TupletActual::Four),
            5 => Ok(TupletActual::Five),
            6 => Ok(TupletActual::Six),
            7 => Ok(TupletActual::Seven),
            8 => Ok(TupletActual::Eight),
            9 => Ok(TupletActual::Nine),
            10 => Ok(TupletActual::Ten),
            11 => Ok(TupletActual::Eleven),
            13 => Ok(TupletActual::Thirteen),
            15 => Ok(TupletActual::Fifteen),
            16 => Ok(TupletActual::Sixteen),
            17 => Ok(TupletActual::Seventeen),
            18 => Ok(TupletActual::Eighteen),
            21 => Ok(TupletActual::TwentyOne),
            25 => Ok(TupletActual::TwentyFive),
            _ => Err(Error::Unit),
        }
    }
}

impl TupletNormal {
    /// The number of notes that the value stands for.
    pub open spec fn count(self) -> nat {
        match self {
            TupletNormal::One => 1,
            TupletNormal::Two => 2,
            TupletNormal::Three => 3,
            TupletNormal::Four => 4,
            TupletNormal::Six => 6,
            TupletNormal::Eight => 8,
            TupletNormal::Nine => 9,
            TupletNormal::Twelve => 12,
            TupletNormal::Sixteen => 16,
        }
    }

    /// The value that stands for a number of notes, if there is one.
    pub open spec fn of_count(value: nat) -> Option<TupletNormal> {
        if value == 1 {
            Some(TupletNormal::One)
        } else if value == 2 {
            Some(TupletNormal::Two)
        } else if value == 3 {
            Some(TupletNormal::Three)
        } else if value == 4 {
            Some(TupletNormal::Four)
        } else if value == 6 {
            Some(TupletNormal::Six)
        } else if value == 8 {
            Some(TupletNormal::Eight)
        } else if value == 9 {
            Some(TupletNormal::Nine)
        } else if value == 12 {
            Some(TupletNormal::Twelve)
        } else if value == 16 {
            Some(TupletNormal::Sixteen)
        } else {
            None
        }
    }

    /// The two directions undo each other, and a tuplet takes the time of 1
    /// to 16 notes.
    pub proof fn lemma_count_inverse(self, value: nat)
        ensures
            Self::of_count(self.count()) == Some(self),
            1 <= self.count() <= 16,
            Self::of_count(value) == Some(self) <==> self.count() == value,
            Self::of_count(value) is Some ==> 1 <= value <= 16,
    {
    }

    /// The number that the value stands for.
    pub fn as_u32(&self) -> (value: u32)
        ensures
            value == self.count(),
            1 <= value <= 16,
    {
        match self {
            TupletNormal::One => 1,
            TupletNormal::Two => 2,
            TupletNormal::Three => 3,
            TupletNormal::Four => 4,
            TupletNormal::Six => 6,
            TupletNormal::Eight => 8,
            TupletNormal::Nine => 9,
            TupletNormal::Twelve => 12,
            TupletNormal::Sixteen => 16,
        }
    }

    /// The value for a number of notes; `Unit` where the format has none.
    pub fn from_u32(value: u32) -> (r: Result<TupletNormal>)
        ensures
            r == match Self::of_count(value as nat) {
                Some(v) => Ok::<TupletNormal, Error>(v),
                None => Err::<TupletNormal, Error>(Error::Unit),
            },
    {
        match value {
            1 => Ok(TupletNormal::One),
            2 => Ok(TupletNormal::Two),
            3 => Ok(TupletNormal::Three),
            4 => Ok(TupletNormal::Four),
            6 => Ok(TupletNormal::Six),
            8 => Ok(TupletNormal::Eight),
            9 => Ok(TupletNormal::Nine),
            12 => Ok(TupletNormal::Twelve),
            16 => Ok(TupletNormal::Sixteen),
            _ => Err(Error::Unit),
        }
    }
}

impl Beats {
    /// The number of beats in a measure.
    pub open spec fn count(self) -> nat {
        match self {
            Beats::Two => 2,
            Beats::Three => 3,
            Beats::Four => 4,
            Beats::Five => 5,
            Beats::Six => 6,
            Beats::Nine => 9,
            Beats::Twelve => 12,
        }
    }

    /// The number that the value stands for.
    pub fn as_u32(self) -> (value: u32)
        ensures
            value == self.count(),
            2 <= value <= 12,
    {
        match self {
            Beats::Two => 2,
            Beats::Three => 3,
            Beats::Four => 4,
            Beats::Five => 5,
            Beats::Six => 6,
            Beats::Nine => 9,
            Beats::Twelve => 12,
        }
    }
}

impl BeatType {
    /// The note value that counts as one beat: 4 for the quarter note.
    pub open spec fn count(self) -> nat {
        match self {
            BeatType::Two => 2,
            BeatType::Four => 4,
            BeatType::Eight => 8,
            BeatType::Sixteen => 16,
        }
    }

    /// The number that the value stands for.
    pub fn as_u32(self) -> (value: u32)
        ensures
            value == self.count(),
            2 <= value <= 16,
    {
        match self {
            BeatType::Two => 2,
            BeatType::Four => 4,
            BeatType::Eight => 8,
            BeatType::Sixteen => 16,
        }
    }
}

impl From<Beats> for u32 {
    fn from(b: Beats) -> (value: u32) {
        b.as_u32()
    }
}

impl vstd::std_specs::convert::FromSpecImpl<Beats> for u32 {
    open spec fn obeys_from_spec() -> bool {
        true
    }

    open spec fn from_spec(b: Beats) -> u32 {
        b.count() as u32
    }
}

impl From<BeatType> for u32 {
    fn from(b: BeatType) -> (value: u32) {
        b.as_u32()
    }
}

impl vstd::std_specs::convert::FromSpecImpl<BeatType> for u32 {
    open spec fn obeys_from_spec() -> bool {
        true
    }

    open spec fn from_spec(b: BeatType) -> u32 {
        b.count() as u32
    }
}

} // verus!
