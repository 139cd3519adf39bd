use super::notation::DescriptiveTempo;
use crate::error::{Error, Result};
use crate::text::{decimal, decimal_string, parse_i32, parse_u32, parsed_i32, parsed_u32};
use vstd::prelude::*;

verus! {

/// A tempo in beats per minute, stored in seven bits.
///
/// The stored value `raw` stands for `2 * raw + 20` beats per minute, so the
/// tempos that can be told apart are the even numbers from 20 to 274.
#[derive(Clone, Copy, PartialEq, Eq, Debug, Hash, Structural)]
pub struct Tempo(u8);

impl Tempo {
    /// The highest stored value.
    pub const MAX_SUPPORTED_RAW_TEMPO: u8 = 127;

    /// The fastest tempo, in beats per minute.
    pub const MAX_SUPPORTED_REAL_TEMPO: i32 = 274;

    /// The slowest tempo, in beats per minute.
    pub const MIN_SUPPORTED_REAL_TEMPO: i32 = 20;

    /// The tempo of a piece that states none, in beats per minute.
    pub const DEFAULT_REAL_TEMPO: i32 = 120;

    #[verifier::type_invariant]
    spec fn in_range(self) -> bool {
        self.0 <= 127
    }

    /// The stored value.
    pub closed spec fn raw(self) -> u8 {
        self.0
    }

    /// Whether the stored value fits in seven bits. Every tempo that
    /// executable code can hold does.
    pub open spec fn wf(self) -> bool {
        self.raw() <= 127
    }

    /// Beats per minute brought into the supported range.
    pub open spec fn clamp_real(real_tempo: int) -> int {
        if real_tempo > 274 {
            274
        } else if real_tempo < 20 {
            20
        } else {
            real_tempo
        }
    }

    /// The stored value for a number of beats per minute.
    pub open spec fn raw_of_real(real_tempo: int) -> int {
        (Self::clamp_real(real_tempo) - 20) / 2
    }

    /// Beats per minute that a stored value stands for.
    pub open spec fn real_of_raw(raw: int) -> int {
        raw * 2 + 20
    }

    /// The tempo with a given stored value.
    pub closed spec fn of_raw(raw: u8) -> Tempo {
        Tempo(raw)
    }

    /// A tempo is known by its stored value.
    pub proof fn lemma_of_raw(self)
        ensures
            Self::of_raw(self.raw()) == self,
            forall|raw: u8| (#[trigger] Self::of_raw(raw)).raw() == raw,
    {
    }

    /// The tempo for a number of beats per minute, brought into the supported
    /// range and rounded down to an even number.
    pub fn new(real_tempo: i32) -> (t: Tempo)
        ensures
            t.raw() == Self::raw_of_real(real_tempo as int),
            t.wf(),
    {
        let assign_tempo: i32 = if real_tempo > Self::MAX_SUPPORTED_REAL_TEMPO {
            Self::MAX_SUPPORTED_REAL_TEMPO
        } else if real_tempo < Self::MIN_SUPPORTED_REAL_TEMPO {
            Self::MIN_SUPPORTED_REAL_TEMPO
        } else {
            real_tempo
        };
        Tempo(((assign_tempo - 20) / 2) as u8)
    }

    /// The tempo with a stored value, of which seven bits at most are kept.
    pub fn new_from_raw(raw_tempo: u8) -> (t: Tempo)
        ensures
            t.raw() == if raw_tempo > 127 {
                127u8
            } else {
                raw_tempo
            },
            t.wf(),
    {
        let assign_tempo: u8 = if raw_tempo > Self::MAX_SUPPORTED_RAW_TEMPO {
            Self::MAX_SUPPORTED_RAW_TEMPO
        } else {
            raw_tempo
        };
        Tempo(assign_tempo)
    }

    /// The stored value.
    pub fn get_raw(self) -> (raw: u8)
        ensures
            raw == self.raw(),
            self.wf(),
    {
        proof {
            use_type_invariant(&self);
        }
        self.0
    }

    /// Beats per minute.
    pub fn get_actual(self) -> (real_tempo: i32)
        ensures
            real_tempo == Self::real_of_raw(self.raw() as int),
            20 <= real_tempo <= 274,
    {
        proof {
            use_type_invariant(&self);
        }
        (self.0 as i32 * 2) + 20
    }

    /// Storing a tempo and reading it back gives the stored value again.
    pub proof fn lemma_raw_round_trip(raw: u8)
        requires
            raw <= 127,
        ensures
            Self::raw_of_real(Self::real_of_raw(raw as int)) == raw,
    {
    }

    /// A larger stored value never stands for a slower tempo.
    pub proof fn lemma_actual_monotonic(a: u8, b: u8)
        requires
            a <= b,
        ensures
            Self::real_of_raw(a as int) <= Self::real_of_raw(b as int),
    {
    }

    /// Reading a tempo and storing what was read changes nothing, and every
    /// tempo in the supported range is stored to within one beat per minute.
    pub proof fn lemma_real_round_trip(real_tempo: int)
        ensures
            0 <= Self::raw_of_real(real_tempo) <= 127,
            20 <= real_tempo <= 274 ==> real_tempo - 1 <= Self::real_of_raw(
                Self::raw_of_real(real_tempo),
            ) <= real_tempo,
    {
    }

    /// The tempo in beats per minute, in decimal digits.
    pub fn to_string(&self) -> (s: String)
        ensures
            s@ == decimal(Self::real_of_raw(self.raw() as int) as nat),
    {
        decimal_string(self.get_actual() as u32)
    }

    /// The tempo that a number of beats per minute in a text stands for.
    /// What `i32::from_str` does not read is refused.
    pub fn from_str(input: &str) -> (r: Result<Tempo>)
        ensures
            r == match parsed_i32(input@) {
                Some(v) => Ok::<Tempo, Error>(Self::of_raw(Self::raw_of_real(v as int) as u8)),
                None => Err::<Tempo, Error>(Error::Parse),
            },
    {
        match parse_i32(input) {
            Some(v) => {
                let t = Tempo::new(v);
                proof {
                    t.lemma_of_raw();
                }
                Ok(t)
            },
            None => Err(Error::Parse),
        }
    }

    /// The Italian word for the tempo.
    pub open spec fn descriptive(self) -> DescriptiveTempo {
        DescriptiveTempo::of_real(Self::real_of_raw(self.raw() as int))
    }

    /// The Italian word for the tempo.
    pub fn to_descriptive(self) -> (d: DescriptiveTempo)
        ensures
            d == self.descriptive(),
    {
        DescriptiveTempo::from_real(self.get_actual())
    }
}

impl Default for Tempo {
    fn default() -> (t: Tempo)
        ensures
            t.raw() == 50,
            Tempo::real_of_raw(t.raw() as int) == 120,
    {
        Tempo::new(Tempo::DEFAULT_REAL_TEMPO)
    }
}

impl From<i32> for Tempo {
    fn from(real_tempo: i32) -> (t: Tempo) {
        Tempo::new(real_tempo)
    }
}

impl vstd::std_specs::convert::FromSpecImpl<i32> for Tempo {
    open spec fn obeys_from_spec() -> bool {
        true
    }

    open spec fn from_spec(real_tempo: i32) -> Tempo {
        Tempo::of_raw(Tempo::raw_of_real(real_tempo as int) as u8)
    }
}

impl DescriptiveTempo {
    /// The word for a number of beats per minute.
    pub open spec fn of_real(val: int) -> DescriptiveTempo {
        if val <= 24 {
            DescriptiveTempo::Larghissimo
        } else if val <= 40 {
            DescriptiveTempo::Grave
        } else if val <= 45 {
            DescriptiveTempo::Lento
        } else if val <= 50 {
            DescriptiveTempo::Largo
        } else if val <= 65 {
            DescriptiveTempo::Adagio
        } else if val <= 69 {
            DescriptiveTempo::Adagietto
        } else if val <= 77 {
            DescriptiveTempo::Andante
        } else if val <= 97 {
            DescriptiveTempo::Moderato
        } else if val <= 120 {
            DescriptiveTempo::Allegretto
        } else if val <= 150 {
            DescriptiveTempo::Allegro
        } else if val <= 176 {
            DescriptiveTempo::Vivace
        } else if val <= 200 {
            DescriptiveTempo::Presto
        } else {
            DescriptiveTempo::Prestissimo
        }
    }

    /// The word for a number of beats per minute in a text. What
    /// `u32::from_str` does not read is refused.
    pub fn from_str(input: &str) -> (r: Result<DescriptiveTempo>)
        ensures
            r == match parsed_u32(input@) {
                Some(v) => Ok::<DescriptiveTempo, Error>(Self::of_real(v as int)),
                None => Err::<DescriptiveTempo, Error>(Error::Parse),
            },
    {
        match parse_u32(input) {
            Some(v) => {
                if v > 200 {
                    Ok(DescriptiveTempo::Prestissimo)
                } else {
                    Ok(Self::from_real(v as i32))
                }
            },
            None => Err(Error::Parse),
        }
    }

    /// The word for a number of beats per minute.
    pub fn from_real(val: i32) -> (d: DescriptiveTempo)
        ensures
            d == Self::of_real(val as int),
    {
        if val <= 24 {
            DescriptiveTempo::Larghissimo
        } else if val <= 40 {
            DescriptiveTempo::Grave
        } else if val <= 45 {
            DescriptiveTempo::Lento
        } else if val <= 50 {
            DescriptiveTempo::Largo
        } else if val <= 65 {
            DescriptiveTempo::Adagio
        } else if val <= 69 {
            DescriptiveTempo::Adagietto
        } else if val <= 77 {
            DescriptiveTempo::Andante
        } else if val <= 97 {
            DescriptiveTempo::Moderato
        } else if val <= 120 {
            DescriptiveTempo::Allegretto
        } else if val <= 150 {
            DescriptiveTempo::Allegro
        } else if val <= 176 {
            DescriptiveTempo::Vivace
        } else if val <= 200 {
            DescriptiveTempo::Presto
        } else {
            DescriptiveTempo::Prestissimo
        }
    }
}

} // verus!
