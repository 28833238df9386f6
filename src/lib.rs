pub mod grammar;
pub mod languages;
pub mod modes;
pub mod rng;
pub mod strgen;
pub mod text;

pub use crate::grammar::{GermanNounList, NounClass, DEFAULT_NOUN_CLASS};
pub use crate::languages::{Languages, FALLBACK_LANGUAGE};
pub use crate::modes::{Modes, FALLBACK_MODE};
pub use crate::rng::{pick_index, RNGWheel, RNG};
pub use crate::strgen::{
    generate, stringer, Config, ConfigError, CoupledWords, DrawError, Generator, LettterSequence,
    ListType, RandomWord, SetupError,
};
