//! Damage reports: `Damage Given to "<target>" - <amount> in <hits> ...`.
use vstd::prelude::*;

use crate::text::{
    chars_of, parse_bounded, parse_bounded_exec, split_once, split_once_exec, strip_prefix,
    strip_prefix_exec, string_from_chars,
};

verus! {

#[derive(Debug, Clone, Copy, PartialEq, Eq, Structural)]
pub enum DamageDirection {
    Given,
    Taken,
}

/// One damage report: who, how much and in how many hits.
#[derive(Debug, Clone, PartialEq)]
pub struct Damage {
    pub direction: DamageDirection,
    pub target: String,
    pub amount: u8,
    pub hits: u8,
}

/// A line that does not follow the damage grammar.
#[derive(Debug, Clone, Copy, PartialEq, Eq, Structural)]
pub struct InvalidDamage;

/// A damage report as plain values: direction, target, amount, hits.
pub type DamageModel = (DamageDirection, Seq<char>, u8, u8);

impl Damage {
    pub open spec fn model(&self) -> DamageModel {
        (self.direction, self.target@, self.amount, self.hits)
    }
}

/// The direction word and what follows it.
pub open spec fn damage_direction(v: Seq<char>) -> Option<(DamageDirection, Seq<char>)> {
    match strip_prefix(v, "Taken from"@) {
        Some(rest) => Some((DamageDirection::Taken, rest)),
        None => match strip_prefix(v, "Given to"@) {
            Some(rest) => Some((DamageDirection::Given, rest)),
            None => None,
        },
    }
}

/// The amount and hit count, from what follows the target's closing quote.
pub open spec fn damage_numbers(v: Seq<char>) -> Option<(u8, u8)> {
    match strip_prefix(v, " - "@) {
        None => None,
        Some(v) => match split_once(v, " "@) {
            None => None,
            Some((amount, v)) => match strip_prefix(v, "in "@) {
                None => None,
                Some(v) => match split_once(v, " "@) {
                    None => None,
                    Some((hits, _)) => match (
                        parse_bounded(amount, 255),
                        parse_bounded(hits, 255),
                    ) {
                        (Some(a), Some(h)) => Some((a as u8, h as u8)),
                        _ => None,
                    },
                },
            },
        },
    }
}

/// The damage report a line writes, if it follows the grammar.
pub open spec fn damage_of(s: Seq<char>) -> Option<DamageModel> {
    match strip_prefix(s, "Damage "@) {
        None => None,
        Some(v) => match damage_direction(v) {
            None => None,
            Some((direction, v)) => match strip_prefix(v, " \""@) {
                None => None,
                Some(v) => match split_once(v, "\""@) {
                    None => None,
                    Some((target, v)) => match damage_numbers(v) {
                        None => None,
                        Some((amount, hits)) => Some((direction, target, amount, hits)),
                    },
                },
            },
        },
    }
}

fn direction_exec(v: &[char]) -> (r: Option<(DamageDirection, Vec<char>)>)
    ensures
        match r {
            Some((d, rest)) => damage_direction(v@) == Some((d, rest@)),
            None => damage_direction(v@) is None,
        },
{
    match strip_prefix_exec(v, chars_of("Taken from").as_slice()) {
        Some(rest) => Some((DamageDirection::Taken, rest)),
        None => match strip_prefix_exec(v, chars_of("Given to").as_slice()) {
            Some(rest) => Some((DamageDirection::Given, rest)),
            None => None,
        },
    }
}

fn numbers_exec(v: &[char]) -> (r: Option<(u8, u8)>)
    ensures
        r == damage_numbers(v@),
{
    let v = match strip_prefix_exec(v, chars_of(" - ").as_slice()) {
        Some(v) => v,
        None => return None,
    };
    let (amount, v) = match split_once_exec(v.as_slice(), chars_of(" ").as_slice()) {
        Some(p) => p,
        None => return None,
    };
    let v = match strip_prefix_exec(v.as_slice(), chars_of("in ").as_slice()) {
        Some(v) => v,
        None => return None,
    };
    let (hits, _) = match split_once_exec(v.as_slice(), chars_of(" ").as_slice()) {
        Some(p) => p,
        None => return None,
    };
    match (parse_bounded_exec(amount.as_slice(), 255), parse_bounded_exec(hits.as_slice(), 255)) {
        (Some(a), Some(h)) => Some((a as u8, h as u8)),
        _ => None,
    }
}

impl Damage {
    /// Reads a damage report from a line given as characters.
    pub fn from_chars(s: &[char]) -> (r: Option<Damage>)
        ensures
            match r {
                Some(d) => damage_of(s@) == Some(d.model()),
                None => damage_of(s@) is None,
            },
    {
        let v = match strip_prefix_exec(s, chars_of("Damage ").as_slice()) {
            Some(v) => v,
            None => return None,
        };
        let (direction, v) = match direction_exec(v.as_slice()) {
            Some(p) => p,
            None => return None,
        };
        let v = match strip_prefix_exec(v.as_slice(), chars_of(" \"").as_slice()) {
            Some(v) => v,
            None => return None,
        };
        let (target, v) = match split_once_exec(v.as_slice(), chars_of("\"").as_slice()) {
            Some(p) => p,
            None => return None,
        };
        match numbers_exec(v.as_slice()) {
            Some((amount, hits)) => Some(
                Damage { direction, target: string_from_chars(target), amount, hits },
            ),
            None => None,
        }
    }

    /// Reads a damage report from a console line.
    pub fn try_from(value: &str) -> (r: Result<Damage, InvalidDamage>)
        ensures
            match r {
                Ok(d) => damage_of(value@) == Some(d.model()),
                Err(_) => damage_of(value@) is None,
            },
    {
        match Damage::from_chars(chars_of(value).as_slice()) {
            Some(d) => Ok(d),
            None => Err(InvalidDamage),
        }
    }
}

} // verus!
