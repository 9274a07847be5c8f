use vstd::prelude::*;

use crate::error::RaffleError;
use crate::types::Number;

verus! {

/// Parameters of a draw: how many numbers, and the range they are taken from.
#[derive(Debug, Clone, Copy, PartialEq, Eq, Structural)]
pub struct Config {
    pub nb_numbers: u8,
    pub min_number: Number,
    pub max_number: Number,
}

impl Config {
    /// A config can be stored only when it draws at least one number from a
    /// range of at least two numbers.
    pub open spec fn is_valid(self) -> bool {
        self.nb_numbers > 0 && self.min_number < self.max_number
    }

    /// `numbers` is a participation that this config accepts.
    pub open spec fn accepts(self, numbers: Seq<Number>) -> bool {
        &&& numbers.len() == self.nb_numbers as int
        &&& forall|i: int|
            0 <= i < numbers.len() ==> self.min_number <= #[trigger] numbers[i]
                <= self.max_number
    }
}

/// What checking `numbers` against the stored config gives.
pub open spec fn numbers_outcome(stored: Option<Config>, numbers: Seq<Number>) -> Result<
    (),
    RaffleError,
> {
    match stored {
        None => Err(RaffleError::ConfigNotSet),
        Some(c) => if numbers.len() != c.nb_numbers as int {
            Err(RaffleError::IncorrectNbNumbers)
        } else if c.accepts(numbers) {
            Ok(())
        } else {
            Err(RaffleError::IncorrectNumbers)
        },
    }
}

/// What comparing `config` with the stored config gives.
pub open spec fn same_config_outcome(stored: Option<Config>, config: Config) -> Result<
    (),
    RaffleError,
> {
    match stored {
        None => Err(RaffleError::ConfigNotSet),
        Some(c) => if c == config {
            Ok(())
        } else {
            Err(RaffleError::DifferentConfig)
        },
    }
}

/// The stored configuration of the raffles.
#[derive(Debug, Clone, Copy)]
pub struct Data {
    pub config: Option<Config>,
}

impl Data {
    pub open spec fn wf(self) -> bool {
        self.config matches Some(c) ==> c.is_valid()
    }

    /// No configuration yet.
    pub fn new() -> (r: Data)
        ensures
            r.config is None,
            r.wf(),
    {
        Data { config: None }
    }

    /// Stores `config` when it is valid.
    pub fn set_config(&mut self, config: Config) -> (r: Result<(), RaffleError>)
        ensures
            config.is_valid() ==> r is Ok && final(self).config == Some(config),
            !config.is_valid() ==> r == Err::<(), _>(RaffleError::IncorrectConfig)
                && *final(self) == *old(self),
            old(self).wf() ==> final(self).wf(),
    {
        if config.nb_numbers == 0 {
            return Err(RaffleError::IncorrectConfig);
        }
        if config.min_number >= config.max_number {
            return Err(RaffleError::IncorrectConfig);
        }
        self.config = Some(config);
        Ok(())
    }

    pub fn get_config(&self) -> (r: Option<Config>)
        ensures
            r == self.config,
    {
        self.config
    }

    /// The stored config, or `ConfigNotSet`.
    pub fn ensure_config(&self) -> (r: Result<Config, RaffleError>)
        ensures
            match self.config {
                Some(c) => r == Ok::<Config, RaffleError>(c),
                None => r == Err::<Config, RaffleError>(RaffleError::ConfigNotSet),
            },
    {
        match self.config {
            None => Err(RaffleError::ConfigNotSet),
            Some(config) => Ok(config),
        }
    }

    /// Succeeds when `config` is the stored config, field by field.
    pub fn ensure_same_config(&self, config: &Config) -> (r: Result<(), RaffleError>)
        ensures
            r == same_config_outcome(self.config, *config),
    {
        let this_config = self.ensure_config()?;
        if this_config.nb_numbers != config.nb_numbers || this_config.min_number
            != config.min_number || this_config.max_number != config.max_number {
            return Err(RaffleError::DifferentConfig);
        }
        Ok(())
    }

    /// Succeeds when `numbers` has as many numbers as the config draws, each
    /// in its range.
    pub fn check_numbers(&self, numbers: &[Number]) -> (r: Result<(), RaffleError>)
        ensures
            r == numbers_outcome(self.config, numbers@),
    {
        let config = self.ensure_config()?;
        let nb_numbers = numbers.len();
        if nb_numbers != config.nb_numbers as usize {
            return Err(RaffleError::IncorrectNbNumbers);
        }
        let mut i: usize = 0;
        while i < nb_numbers
            invariant
                self.config == Some(config),
                nb_numbers == numbers@.len(),
                nb_numbers == config.nb_numbers as usize,
                i <= nb_numbers,
                forall|j: int|
                    0 <= j < i ==> config.min_number <= #[trigger] numbers@[j]
                        <= config.max_number,
            decreases nb_numbers - i,
        {
            let number = numbers[i];
            if number > config.max_number || number < config.min_number {
                assert(!config.accepts(numbers@)) by {
                    assert(numbers@[i as int] == number);
                }
                return Err(RaffleError::IncorrectNumbers);
            }
            i = i + 1;
        }
        Ok(())
    }
}

} // verus!
