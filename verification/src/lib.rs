//! Verified core of a code-challenge judge: the challenge catalogue and
//! schedule, test-data generators and answer checks, judging of runs,
//! the plagiarism and spot-prize rules, command-line configuration and the
//! announcement cards.
pub mod challenges;
pub mod config;
pub mod generator;
pub mod judging;
pub mod score;
pub mod settings;
pub mod teams;
pub mod text;
